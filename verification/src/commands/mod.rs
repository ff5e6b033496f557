//! What the commands of the program decide.
pub mod serve;
pub mod undoc;
