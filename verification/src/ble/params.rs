//! The fields that packets are made of.
use vstd::prelude::*;
use vstd::slice::slice_subrange;

verus! {

/// Why a field could not be read.
#[derive(Clone, Copy, Debug, PartialEq, Eq, Structural)]
pub enum ParamError {
    /// The data ended before the field did.
    Eof,
    /// A colour temperature of 0 K.
    ZeroKelvin,
}

/// A field of a packet, as a fixed number of bytes.
pub trait DecodePacketParam: Sized {
    /// How many bytes the field takes.
    spec fn width() -> nat;

    /// The bytes that stand for this value.
    spec fn param_bytes(&self) -> Seq<u8>;

    /// The value that stands at the front of `data`.
    spec fn param_at(data: Seq<u8>) -> Result<Self, ParamError>;

    /// Reads the field from the front of `data` and returns what follows it.
    fn decode_param<'a>(&mut self, data: &'a [u8]) -> (r: Result<&'a [u8], ParamError>)
        ensures
            match r {
                Ok(rest) => {
                    &&& Self::param_at(data@) == Ok::<Self, ParamError>(*final(self))
                    &&& data@.len() >= Self::width()
                    &&& rest@ == data@.skip(Self::width() as int)
                },
                Err(err) => {
                    &&& Self::param_at(data@) == Err::<Self, ParamError>(err)
                    &&& *final(self) == *old(self)
                },
            },
    ;

    /// Appends the field to `target`.
    fn encode_param(&self, target: &mut Vec<u8>)
        ensures
            final(target)@ == old(target)@ + self.param_bytes(),
    ;
}

impl DecodePacketParam for u8 {
    open spec fn width() -> nat {
        1
    }

    open spec fn param_bytes(&self) -> Seq<u8> {
        seq![*self]
    }

    open spec fn param_at(data: Seq<u8>) -> Result<u8, ParamError> {
        if data.len() < 1 {
            Err(ParamError::Eof)
        } else {
            Ok(data[0])
        }
    }

    fn decode_param<'a>(&mut self, data: &'a [u8]) -> (r: Result<&'a [u8], ParamError>) {
        if data.len() < 1 {
            return Err(ParamError::Eof);
        }
        *self = data[0];
        Ok(slice_subrange(data, 1, data.len()))
    }

    fn encode_param(&self, target: &mut Vec<u8>) {
        target.push(*self);
        assert(target@ =~= old(target)@ + self.param_bytes());
    }
}

/// The low and the high byte of `n`.
pub open spec fn low_high(n: u16) -> (u8, u8) {
    ((n % 256) as u8, (n / 256) as u8)
}

/// Little-endian.
impl DecodePacketParam for u16 {
    open spec fn width() -> nat {
        2
    }

    open spec fn param_bytes(&self) -> Seq<u8> {
        seq![low_high(*self).0, low_high(*self).1]
    }

    open spec fn param_at(data: Seq<u8>) -> Result<u16, ParamError> {
        if data.len() < 2 {
            Err(ParamError::Eof)
        } else {
            Ok((data[0] + 256 * data[1]) as u16)
        }
    }

    fn decode_param<'a>(&mut self, data: &'a [u8]) -> (r: Result<&'a [u8], ParamError>) {
        if data.len() < 2 {
            return Err(ParamError::Eof);
        }
        *self = (data[0] as u16) + 256 * (data[1] as u16);
        Ok(slice_subrange(data, 2, data.len()))
    }

    fn encode_param(&self, target: &mut Vec<u8>) {
        target.push((*self % 256) as u8);
        target.push((*self / 256) as u8);
        assert(target@ =~= old(target)@ + self.param_bytes());
    }
}

/// One byte: zero is off, anything else is on.
impl DecodePacketParam for bool {
    open spec fn width() -> nat {
        1
    }

    open spec fn param_bytes(&self) -> Seq<u8> {
        seq![on_byte(*self)]
    }

    open spec fn param_at(data: Seq<u8>) -> Result<bool, ParamError> {
        if data.len() < 1 {
            Err(ParamError::Eof)
        } else {
            Ok(data[0] != 0)
        }
    }

    fn decode_param<'a>(&mut self, data: &'a [u8]) -> (r: Result<&'a [u8], ParamError>) {
        let mut byte: u8 = 0;
        match byte.decode_param(data) {
            Ok(rest) => {
                *self = itob(&byte);
                Ok(rest)
            },
            Err(err) => Err(err),
        }
    }

    fn encode_param(&self, target: &mut Vec<u8>) {
        target.push(btoi(*self));
        assert(target@ =~= old(target)@ + self.param_bytes());
    }
}

/// One for on and zero for off.
pub open spec fn on_byte(on: bool) -> u8 {
    if on {
        1
    } else {
        0
    }
}

/// What a byte of a switch says.
pub open spec fn is_on(byte: u8) -> bool {
    byte != 0
}

/// A switch is read back as it was written, and only zero is off.
pub proof fn a_switch_is_read_back(on: bool, byte: u8)
    ensures
        is_on(on_byte(on)) == on,
        on_byte(true) == 1 && on_byte(false) == 0,
        !is_on(byte) <==> byte == on_byte(false),
{
}

pub fn btoi(on: bool) -> (r: u8)
    ensures
        r == on_byte(on),
{
    if on {
        1
    } else {
        0
    }
}

pub fn itob(i: &u8) -> (r: bool)
    ensures
        r == is_on(*i),
        r == (*i != 0),
{
    *i != 0
}

/// Data is offset by 128 with increments of 1%,
/// so 0% is 128, 100% is 228.
#[derive(Debug, Clone, Copy, PartialEq, Eq, Structural)]
pub struct TargetHumidity(pub u8);

impl Default for TargetHumidity {
    fn default() -> (r: Self)
        ensures
            r == TargetHumidity(0),
    {
        TargetHumidity(0)
    }
}

impl TargetHumidity {
    /// The percentage that a byte stands for.
    pub open spec fn percentage(self) -> u8 {
        self.0 % 128
    }

    /// The byte of a percentage.
    pub open spec fn of_percentage(percent: u8) -> TargetHumidity {
        TargetHumidity((percent + 128) as u8)
    }

    /// A percentage is read back from its byte, which always has its topmost bit set,
    /// and a higher percentage has a higher byte.
    pub proof fn a_percentage_is_read_back(percent: u8, other: u8)
        requires
            percent < 128,
            other < 128,
        ensures
            Self::of_percentage(percent).percentage() == percent,
            Self::of_percentage(percent).0 >= 128,
            Self::of_percentage(percent).0 - Self::of_percentage(0).0 == percent,
            percent < other <==> Self::of_percentage(percent).0 < Self::of_percentage(other).0,
    {
    }

    /// The percentage, which is all but the topmost bit.
    pub fn as_percent(&self) -> (r: u8)
        ensures
            r == self.percentage(),
            r == self.0 % 128,
    {
        let v: u8 = self.0;
        assert(v & 0x7f == v % 128) by (bit_vector);
        v & 0x7f
    }

    pub fn into_inner(self) -> (r: u8)
        ensures
            r == self.0,
    {
        self.0
    }

    pub fn from_percent(percent: u8) -> (r: Self)
        requires
            percent < 128,
        ensures
            r == Self::of_percentage(percent),
            r.0 == percent + 128,
            r.0 % 128 == percent,
    {
        TargetHumidity(percent + 128)
    }
}

impl From<TargetHumidity> for u8 {
    fn from(val: TargetHumidity) -> (r: Self) {
        val.0
    }
}

impl vstd::std_specs::convert::FromSpecImpl<TargetHumidity> for u8 {
    open spec fn obeys_from_spec() -> bool {
        true
    }

    open spec fn from_spec(val: TargetHumidity) -> u8 {
        val.0
    }
}

impl DecodePacketParam for TargetHumidity {
    open spec fn width() -> nat {
        1
    }

    open spec fn param_bytes(&self) -> Seq<u8> {
        seq![self.0]
    }

    open spec fn param_at(data: Seq<u8>) -> Result<TargetHumidity, ParamError> {
        if data.len() < 1 {
            Err(ParamError::Eof)
        } else {
            Ok(TargetHumidity(data[0]))
        }
    }

    fn decode_param<'a>(&mut self, data: &'a [u8]) -> (r: Result<&'a [u8], ParamError>) {
        self.0.decode_param(data)
    }

    fn encode_param(&self, target: &mut Vec<u8>) {
        target.push(self.0);
        assert(target@ =~= old(target)@ + self.param_bytes());
    }
}

/// 0 K is not a colour temperature.
#[derive(Clone, Copy, Debug, PartialEq, Eq, Structural)]
pub struct InvalidKelvin;

/// Colour temperature in Kelvin, carried as a 16 bit big-endian value.
///
/// Zero is not a valid temperature: the device uses it to mean "no colour
/// temperature set, I am in RGB mode". Rejecting it while decoding is what keeps
/// a plain white RGB frame from also parsing as a colour temperature frame.
#[derive(Clone, Copy, Debug, PartialEq, Eq, Structural)]
pub struct Kelvin(u16);

impl View for Kelvin {
    type V = u16;

    closed spec fn view(&self) -> u16 {
        self.0
    }
}

impl Default for Kelvin {
    /// The unset value, which no frame decodes to.
    fn default() -> (r: Self)
        ensures
            r@ == 0,
    {
        Kelvin(0)
    }
}

impl Kelvin {
    /// The temperature of `kelvin` degrees.
    pub closed spec fn of(kelvin: u16) -> Kelvin {
        Kelvin(kelvin)
    }

    /// A temperature is known by its number.
    pub broadcast proof fn known_by_its_number(kelvin: u16)
        ensures
            (#[trigger] Kelvin::of(kelvin))@ == kelvin,
    {
    }

    pub broadcast proof fn is_of_its_number(kelvin: Kelvin)
        ensures
            Kelvin::of(#[trigger] kelvin@) == kelvin,
    {
    }

    pub fn new(kelvin: u16) -> (r: Result<Self, InvalidKelvin>)
        ensures
            match r {
                Ok(value) => kelvin != 0 && value == Kelvin::of(kelvin) && value@ == kelvin,
                Err(_) => kelvin == 0,
            },
    {
        if kelvin == 0 {
            Err(InvalidKelvin)
        } else {
            Ok(Kelvin(kelvin))
        }
    }

    pub fn get(&self) -> (r: u16)
        ensures
            r == self@,
    {
        self.0
    }
}

/// The number whose high byte comes first.
pub open spec fn big_endian(hi: u8, lo: u8) -> u16 {
    (256 * hi + lo) as u16
}

impl DecodePacketParam for Kelvin {
    open spec fn width() -> nat {
        2
    }

    open spec fn param_bytes(&self) -> Seq<u8> {
        seq![low_high(self@).1, low_high(self@).0]
    }

    open spec fn param_at(data: Seq<u8>) -> Result<Kelvin, ParamError> {
        if data.len() < 2 {
            Err(ParamError::Eof)
        } else if big_endian(data[0], data[1]) == 0 {
            Err(ParamError::ZeroKelvin)
        } else {
            Ok(Kelvin::of(big_endian(data[0], data[1])))
        }
    }

    fn decode_param<'a>(&mut self, data: &'a [u8]) -> (r: Result<&'a [u8], ParamError>) {
        if data.len() < 2 {
            return Err(ParamError::Eof);
        }
        match Kelvin::new(256 * (data[0] as u16) + (data[1] as u16)) {
            Ok(kelvin) => {
                *self = kelvin;
                Ok(slice_subrange(data, 2, data.len()))
            },
            Err(_) => Err(ParamError::ZeroKelvin),
        }
    }

    fn encode_param(&self, target: &mut Vec<u8>) {
        target.push((self.0 / 256) as u8);
        target.push((self.0 % 256) as u8);
        assert(target@ =~= old(target)@ + self.param_bytes());
    }
}

/// The colour temperature field of a status notification, where zero is
/// meaningful: it tells us the device is showing an RGB colour rather than white.
#[derive(Clone, Copy, Debug, PartialEq, Eq, Structural)]
pub struct OptionalKelvin(pub u16);

impl Default for OptionalKelvin {
    fn default() -> (r: Self)
        ensures
            r == OptionalKelvin(0),
    {
        OptionalKelvin(0)
    }
}

impl OptionalKelvin {
    /// The temperature, where there is one.
    pub open spec fn degrees(self) -> Option<u16> {
        if self.0 == 0 {
            None
        } else {
            Some(self.0)
        }
    }

    /// Every temperature but zero is one, and is itself.
    pub proof fn zero_is_no_temperature(kelvin: u16)
        ensures
            OptionalKelvin(kelvin).degrees() is None <==> kelvin == 0,
            OptionalKelvin(kelvin).degrees() matches Some(degrees) ==> degrees == kelvin,
    {
    }

    pub fn get(&self) -> (r: Option<u16>)
        ensures
            r == self.degrees(),
            r == (if self.0 != 0 {
                Some(self.0)
            } else {
                None
            }),
    {
        if self.0 != 0 {
            Some(self.0)
        } else {
            None
        }
    }
}

/// Every field reads back as what was written, whatever follows it.
pub proof fn params_round_trip(
    byte: u8,
    word: u16,
    on: bool,
    humidity: TargetHumidity,
    kelvin: Kelvin,
    rest: Seq<u8>,
)
    ensures
        u8::param_at(byte.param_bytes() + rest) == Ok::<u8, ParamError>(byte),
        u16::param_at(word.param_bytes() + rest) == Ok::<u16, ParamError>(word),
        bool::param_at(on.param_bytes() + rest) == Ok::<bool, ParamError>(on),
        TargetHumidity::param_at(humidity.param_bytes() + rest) == Ok::<TargetHumidity, ParamError>(
            humidity,
        ),
        Kelvin::param_at(kelvin.param_bytes() + rest) == (if kelvin@ == 0 {
            Err::<Kelvin, ParamError>(ParamError::ZeroKelvin)
        } else {
            Ok(kelvin)
        }),
{
}

} // verus!
