//! Padded base64 text, as the `data-encoding` crate reads and writes it.
use vstd::prelude::*;

verus! {

/// The error with which `data-encoding` refuses a text.
#[verifier::external_type_specification]
#[verifier::external_body]
pub struct ExDecodeError(data_encoding::DecodeError);

/// The character for six bits.
pub open spec fn symbol(bits: int) -> char {
    if bits < 26 {
        (bits + 65) as char
    } else if bits < 52 {
        (bits + 71) as char
    } else if bits < 62 {
        (bits - 4) as char
    } else if bits == 62 {
        '+'
    } else {
        '/'
    }
}

/// The six bits that a character stands for.
pub open spec fn bits_of(c: char) -> Option<int> {
    let code = c as int;
    if 65 <= code <= 90 {
        Some(code - 65)
    } else if 97 <= code <= 122 {
        Some(code - 71)
    } else if 48 <= code <= 57 {
        Some(code + 4)
    } else if c == '+' {
        Some(62)
    } else if c == '/' {
        Some(63)
    } else {
        None
    }
}

/// The four characters for up to three bytes, padded where bytes are missing.
pub open spec fn group_text(data: Seq<u8>) -> Seq<char> {
    let a = data[0] as int;
    let b = if data.len() > 1 {
        data[1] as int
    } else {
        0
    };
    let c = if data.len() > 2 {
        data[2] as int
    } else {
        0
    };
    seq![
        symbol(a / 4),
        symbol(a % 4 * 16 + b / 16),
        if data.len() > 1 {
            symbol(b % 16 * 4 + c / 64)
        } else {
            '='
        },
        if data.len() > 2 {
            symbol(c % 64)
        } else {
            '='
        },
    ]
}

/// The padded base64 text of `data`.
#[verifier::opaque]
pub open spec fn base64_text(data: Seq<u8>) -> Seq<char>
    decreases data.len(),
{
    if data.len() == 0 {
        Seq::<char>::empty()
    } else if data.len() <= 3 {
        group_text(data)
    } else {
        group_text(data.take(3)) + base64_text(data.skip(3))
    }
}

/// The bytes that four characters stand for. Bits that no byte takes are zero.
pub open spec fn group_data(text: Seq<char>) -> Option<Seq<u8>> {
    match (bits_of(text[0]), bits_of(text[1]), bits_of(text[2]), bits_of(text[3])) {
        (Some(a), Some(b), Some(c), Some(d)) => Some(
            seq![(a * 4 + b / 16) as u8, (b % 16 * 16 + c / 4) as u8, (c % 4 * 64 + d) as u8],
        ),
        (Some(a), Some(b), Some(c), None) => if text[3] == '=' && c % 4 == 0 {
            Some(seq![(a * 4 + b / 16) as u8, (b % 16 * 16 + c / 4) as u8])
        } else {
            None
        },
        (Some(a), Some(b), None, None) => if text[2] == '=' && text[3] == '=' && b % 16 == 0 {
            Some(seq![(a * 4 + b / 16) as u8])
        } else {
            None
        },
        _ => None,
    }
}

/// The bytes that a padded base64 text stands for, if it is one. Texts may stand
/// one behind the other, so any four characters may end in padding.
#[verifier::opaque]
pub open spec fn base64_data(text: Seq<char>) -> Option<Seq<u8>>
    decreases text.len(),
{
    if text.len() == 0 {
        Some(Seq::<u8>::empty())
    } else if text.len() < 4 {
        None
    } else {
        match (group_data(text.take(4)), base64_data(text.skip(4))) {
            (Some(first), Some(rest)) => Some(first + rest),
            _ => None,
        }
    }
}

proof fn lemma_symbol(bits: int)
    requires
        0 <= bits < 64,
    ensures
        bits_of(symbol(bits)) == Some(bits),
{
}

proof fn lemma_group(data: Seq<u8>)
    requires
        0 < data.len() <= 3,
    ensures
        group_data(group_text(data)) == Some(data),
{
    let a = data[0] as int;
    let b = if data.len() > 1 {
        data[1] as int
    } else {
        0
    };
    let c = if data.len() > 2 {
        data[2] as int
    } else {
        0
    };
    lemma_symbol(a / 4);
    lemma_symbol(a % 4 * 16 + b / 16);
    lemma_symbol(b % 16 * 4 + c / 64);
    lemma_symbol(c % 64);
    assert(bits_of('=') is None);
    assert(group_data(group_text(data))->Some_0 =~= data);
}

/// A text gives back the data that it was written from. It takes four characters
/// for every three bytes begun.
pub proof fn a_text_gives_its_data_back(data: Seq<u8>)
    ensures
        base64_data(base64_text(data)) == Some(data),
        base64_text(data).len() == (data.len() + 2) / 3 * 4,
    decreases data.len(),
{
    reveal(base64_text);
    reveal(base64_data);
    let text = base64_text(data);
    if data.len() == 0 {
    } else if data.len() <= 3 {
        lemma_group(data);
        assert(text.take(4) =~= text);
        assert(text.skip(4) =~= Seq::<char>::empty());
        assert(base64_data(text.skip(4)) == Some(Seq::<u8>::empty()));
        assert(data + Seq::<u8>::empty() =~= data);
    } else {
        let first = data.take(3);
        let rest = data.skip(3);
        lemma_group(first);
        a_text_gives_its_data_back(rest);
        assert(text.take(4) =~= group_text(first));
        assert(text.skip(4) =~= base64_text(rest));
        assert(first + rest =~= data);
    }
}

/// No more than three bytes come of four characters.
pub proof fn data_is_shorter_than_its_text(text: Seq<char>)
    ensures
        base64_data(text) matches Some(data) ==> 4 * data.len() <= 3 * text.len(),
    decreases text.len(),
{
    reveal(base64_data);
    if text.len() >= 4 {
        data_is_shorter_than_its_text(text.skip(4));
    }
}

/// `data_encoding::BASE64.encode`.
///
/// Trusted: the text is the padded one of the alphabet that ends in `+` and `/`.
/// The call panics on data of more than `usize::MAX / 512` bytes.
#[verifier::external_body]
fn encode(data: &[u8]) -> (r: String)
    requires
        data@.len() <= usize::MAX / 512,
    ensures
        r@ == base64_text(data@),
{
    data_encoding::BASE64.encode(data)
}

/// `data_encoding::BASE64.decode`.
///
/// Trusted: what is accepted is padded text of the alphabet that ends in `+` and
/// `/`, or several such texts one behind the other, and unused bits are zero. The
/// call may panic on a text of more than `usize::MAX / 8` bytes, and a character
/// takes four bytes at most.
#[verifier::external_body]
fn decode(text: &str) -> (r: Result<Vec<u8>, data_encoding::DecodeError>)
    requires
        text@.len() <= usize::MAX / 32,
    ensures
        match r {
            Ok(data) => base64_data(text@) == Some(data@),
            Err(_) => base64_data(text@) is None,
        },
{
    data_encoding::BASE64.decode(text.as_bytes())
}

/// The padded base64 text of `data`.
pub fn base64_encode(data: &[u8]) -> (r: String)
    requires
        data@.len() <= usize::MAX / 512,
    ensures
        r@ == base64_text(data@),
        r@.len() == (data@.len() + 2) / 3 * 4,
        base64_data(r@) == Some(data@),
{
    proof {
        a_text_gives_its_data_back(data@);
    }
    encode(data)
}

/// The bytes that a padded base64 text stands for.
pub fn base64_decode(text: &str) -> (r: Result<Vec<u8>, data_encoding::DecodeError>)
    requires
        text@.len() <= usize::MAX / 32,
    ensures
        match r {
            Ok(data) => base64_data(text@) == Some(data@) && 4 * data@.len() <= 3 * text@.len(),
            Err(_) => base64_data(text@) is None,
        },
{
    proof {
        data_is_shorter_than_its_text(text@);
    }
    decode(text)
}

} // verus!
