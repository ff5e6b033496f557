//! Random identifiers.
use vstd::prelude::*;

verus! {

/// A hexadecimal digit in lower case.
pub open spec fn is_lower_hex(c: char) -> bool {
    '0' <= c <= '9' || 'a' <= c <= 'f'
}

/// Thirty-two hexadecimal digits.
pub open spec fn is_simple_uuid(text: Seq<char>) -> bool {
    text.len() == 32 && forall|i: int| 0 <= i < text.len() ==> is_lower_hex(#[trigger] text[i])
}

/// Thirty-two hexadecimal digits with hyphens behind the eighth, the twelfth,
/// the sixteenth and the twentieth.
pub open spec fn is_uuid(text: Seq<char>) -> bool {
    &&& text.len() == 36
    &&& forall|i: int|
        0 <= i < text.len() ==> if i == 8 || i == 13 || i == 18 || i == 23 {
            #[trigger] text[i] == '-'
        } else {
            is_lower_hex(text[i])
        }
}

/// A random UUID, from `uuid::Uuid::new_v4`, as `Display` writes it.
///
/// Trusted: the shape of the text. Which digits it holds is up to chance. The
/// call panics if the operating system has no random bytes to give.
#[verifier::external_body]
pub(crate) fn new_uuid() -> (r: String)
    ensures
        is_uuid(r@),
{
    uuid::Uuid::new_v4().to_string()
}

/// A random UUID, from `uuid::Uuid::new_v4`, as `uuid::Uuid::simple` writes it.
///
/// Trusted: the shape of the text. Which digits it holds is up to chance. The
/// call panics if the operating system has no random bytes to give.
#[verifier::external_body]
pub(crate) fn new_simple_uuid() -> (r: String)
    ensures
        is_simple_uuid(r@),
{
    uuid::Uuid::new_v4().simple().to_string()
}

} // verus!
