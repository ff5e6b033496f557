//! What is read of a container of keys and certificates before its contents are
//! handed out.
use vstd::prelude::*;
use vstd::slice::slice_subrange;

use crate::service::iot::der;
use crate::service::iot::der::{
    bytes_of_each, check_byte, check_object_id, find_elements, find_front, find_inside, push_bytes, push_element,
    Found,
};
use crate::text::chars_of;

verus! {

/// Whether `p12::PFX::parse` takes these bytes for a container.
pub uninterp spec fn pfx_parses(data: Seq<u8>) -> bool;

/// What `p12::ContentInfo::data` gives of a container's own contents.
pub uninterp spec fn pfx_contents(data: Seq<u8>, password: Seq<u8>) -> Option<Seq<u8>>;

/// What `p12::ContentInfo::data` gives of one part of the contents.
pub uninterp spec fn part_data(part: Seq<u8>, password: Seq<u8>) -> Option<Seq<u8>>;

/// The keys that `p12::PFX::key_bags` finds in these contents, in DER.
pub uninterp spec fn pfx_key_bags(contents: Seq<u8>, password: Seq<char>) -> Option<Seq<Seq<u8>>>;

/// The certificates that `p12::PFX::cert_bags` finds in these contents, in DER.
pub uninterp spec fn pfx_cert_bags(contents: Seq<u8>, password: Seq<char>) -> Option<Seq<Seq<u8>>>;

/// The bytes are no container.
#[derive(Clone, Copy, Debug, PartialEq, Eq, Structural)]
pub struct NoContainer;

/// The bytes of each item.
pub open spec fn bytes_of(items: Seq<Vec<u8>>) -> Seq<Seq<u8>> {
    items.map_values(|item: Vec<u8>| item@)
}

// -------------------------------------------------------------------- passwords

/// A character in UTF-16, the high byte of each unit first.
pub open spec fn utf16(c: char) -> Seq<u8> {
    let code = c as int;
    if code < 0x10000 {
        seq![(code / 256) as u8, (code % 256) as u8]
    } else {
        let high = 0xd800 + (code - 0x10000) / 1024;
        let low = 0xdc00 + (code - 0x10000) % 1024;
        seq![(high / 256) as u8, (high % 256) as u8, (low / 256) as u8, (low % 256) as u8]
    }
}

pub open spec fn utf16_text(text: Seq<char>) -> Seq<u8>
    decreases text.len(),
{
    if text.len() == 0 {
        Seq::<u8>::empty()
    } else {
        utf16_text(text.drop_last()) + utf16(text.last())
    }
}

/// A password as containers are encrypted with it: in UTF-16, with a zero behind
/// it.
pub open spec fn password_bytes(text: Seq<char>) -> Seq<u8> {
    utf16_text(text) + seq![0u8, 0u8]
}

/// Every character of a password is encrypted with: one unit of two bytes holds its
/// number, the high byte first, and where that is too large two units do, which no
/// other character has. A zero unit ends the password.
pub proof fn a_password_is_written_in_units(text: Seq<char>, c: char)
    ensures
        password_bytes(Seq::<char>::empty()) == seq![0u8, 0u8],
        password_bytes(text.push(c)) == utf16_text(text) + utf16(c) + seq![0u8, 0u8],
        password_bytes(text) == utf16_text(text) + seq![0u8, 0u8],
        c as int <= 0xffff ==> utf16(c).len() == 2 && 256 * utf16(c)[0] + utf16(c)[1] == c as int,
        c as int > 0xffff ==> utf16(c).len() == 4 && ({
            let high = 256 * utf16(c)[0] + utf16(c)[1];
            let low = 256 * utf16(c)[2] + utf16(c)[3];
            &&& 0xd800 <= high < 0xdc00
            &&& 0xdc00 <= low < 0xe000
            &&& 0x10000 + 1024 * (high - 0xd800) + (low - 0xdc00) == c as int
        }),
{
    assert(text.push(c).drop_last() =~= text);
    assert(password_bytes(Seq::<char>::empty()) =~= seq![0u8, 0u8]);
    assert(c as int <= 0x10ffff);
}

fn push_utf16(bytes: &mut Vec<u8>, c: char)
    ensures
        final(bytes)@ == old(bytes)@ + utf16(c),
{
    let code: u32 = c as u32;
    if code < 0x10000 {
        bytes.push((code / 256) as u8);
        bytes.push((code % 256) as u8);
    } else {
        let high: u32 = 0xd800 + (code - 0x10000) / 1024;
        let low: u32 = 0xdc00 + (code - 0x10000) % 1024;
        bytes.push((high / 256) as u8);
        bytes.push((high % 256) as u8);
        bytes.push((low / 256) as u8);
        bytes.push((low % 256) as u8);
    }
    assert(bytes@ =~= old(bytes)@ + utf16(c));
}

pub fn encode_password(text: &str) -> (r: Vec<u8>)
    ensures
        r@ == password_bytes(text@),
{
    let chars = chars_of(text);
    let mut bytes: Vec<u8> = Vec::new();
    for i in 0..chars.len()
        invariant
            bytes@ == utf16_text(chars@.take(i as int)),
    {
        assert(chars@.take(i + 1).drop_last() =~= chars@.take(i as int));
        push_utf16(&mut bytes, chars[i]);
    }
    assert(chars@.take(chars@.len() as int) =~= chars@);
    bytes.push(0);
    bytes.push(0);
    assert(bytes@ =~= password_bytes(text@));
    bytes
}

// ------------------------------------------------------------ object identifiers

/// An object identifier of the family of standards that containers belong to.
pub open spec fn pkcs(tail: Seq<u8>) -> Seq<u8> {
    seq![0x2au8, 0x86, 0x48, 0x86, 0xf7, 0x0d, 0x01] + tail
}

/// The type of plain contents.
pub open spec fn data_type() -> Seq<u8> {
    pkcs(seq![0x07u8, 0x01])
}

/// The type of encrypted contents.
pub open spec fn encrypted_type() -> Seq<u8> {
    pkcs(seq![0x07u8, 0x06])
}

/// An algorithm that hashes a password, a number of rounds, into a key.
pub open spec fn is_password_algorithm(kind: Seq<u8>) -> bool {
    kind == pkcs(seq![0x0cu8, 0x01, 0x03]) || kind == pkcs(seq![0x0cu8, 0x01, 0x06])
}

/// The hash algorithm of containers.
pub open spec fn sha1() -> Seq<u8> {
    seq![0x2bu8, 0x0e, 0x03, 0x02, 0x1a]
}

/// The type of a bag that holds an encrypted key.
pub open spec fn key_bag() -> Seq<u8> {
    pkcs(seq![0x0cu8, 0x0a, 0x01, 0x02])
}

/// The type of a bag that holds a certificate.
pub open spec fn cert_bag() -> Seq<u8> {
    pkcs(seq![0x0cu8, 0x0a, 0x01, 0x03])
}

/// An attribute whose values are read: a name, or the id of a key.
pub open spec fn is_read_attribute(kind: Seq<u8>) -> bool {
    kind == pkcs(seq![0x09u8, 0x14]) || kind == pkcs(seq![0x09u8, 0x15])
}

fn is_equal(bytes: &[u8], expected: &Vec<u8>) -> (r: bool)
    ensures
        r == (bytes@ == expected@),
{
    if bytes.len() != expected.len() {
        return false;
    }
    for i in 0..bytes.len()
        invariant
            bytes@.len() == expected@.len(),
            forall|j: int| 0 <= j < i ==> bytes@[j] == #[trigger] expected@[j],
    {
        if bytes[i] != expected[i] {
            return false;
        }
    }
    assert(bytes@ =~= expected@);
    true
}

fn is_pkcs(bytes: &[u8], tail: Vec<u8>) -> (r: bool)
    ensures
        r == (bytes@ == pkcs(tail@)),
{
    let mut expected: Vec<u8> = vec![0x2a, 0x86, 0x48, 0x86, 0xf7, 0x0d, 0x01];
    push_bytes(&mut expected, tail.as_slice());
    assert(expected@ =~= pkcs(tail@));
    is_equal(bytes, &expected)
}

fn is_data_type(bytes: &[u8]) -> (r: bool)
    ensures
        r == (bytes@ == data_type()),
{
    let tail: Vec<u8> = vec![0x07, 0x01];
    assert(tail@ =~= seq![0x07u8, 0x01]);
    is_pkcs(bytes, tail)
}

fn is_encrypted_type(bytes: &[u8]) -> (r: bool)
    ensures
        r == (bytes@ == encrypted_type()),
{
    let tail: Vec<u8> = vec![0x07, 0x06];
    assert(tail@ =~= seq![0x07u8, 0x06]);
    is_pkcs(bytes, tail)
}

fn check_password_algorithm(bytes: &[u8]) -> (r: bool)
    ensures
        r == is_password_algorithm(bytes@),
{
    let long: Vec<u8> = vec![0x0c, 0x01, 0x03];
    let short: Vec<u8> = vec![0x0c, 0x01, 0x06];
    assert(long@ =~= seq![0x0cu8, 0x01, 0x03]);
    assert(short@ =~= seq![0x0cu8, 0x01, 0x06]);
    is_pkcs(bytes, long) || is_pkcs(bytes, short)
}

fn is_sha1(bytes: &[u8]) -> (r: bool)
    ensures
        r == (bytes@ == sha1()),
{
    let expected: Vec<u8> = vec![0x2b, 0x0e, 0x03, 0x02, 0x1a];
    assert(expected@ =~= sha1());
    is_equal(bytes, &expected)
}

fn is_key_bag(bytes: &[u8]) -> (r: bool)
    ensures
        r == (bytes@ == key_bag()),
{
    let tail: Vec<u8> = vec![0x0c, 0x0a, 0x01, 0x02];
    assert(tail@ =~= seq![0x0cu8, 0x0a, 0x01, 0x02]);
    is_pkcs(bytes, tail)
}

fn is_cert_bag(bytes: &[u8]) -> (r: bool)
    ensures
        r == (bytes@ == cert_bag()),
{
    let tail: Vec<u8> = vec![0x0c, 0x0a, 0x01, 0x03];
    assert(tail@ =~= seq![0x0cu8, 0x0a, 0x01, 0x03]);
    is_pkcs(bytes, tail)
}

fn check_read_attribute(bytes: &[u8]) -> (r: bool)
    ensures
        r == is_read_attribute(bytes@),
{
    let name: Vec<u8> = vec![0x09, 0x14];
    let id: Vec<u8> = vec![0x09, 0x15];
    assert(name@ =~= seq![0x09u8, 0x14]);
    assert(id@ =~= seq![0x09u8, 0x15]);
    is_pkcs(bytes, name) || is_pkcs(bytes, id)
}

/// The object identifier with which a sequence begins, and what follows it there.
pub open spec fn named(data: Seq<u8>) -> Option<(Seq<u8>, Seq<u8>)> {
    match der::inside(data, der::SEQUENCE) {
        Some((fields, _)) => der::inside(fields, der::OBJECT_ID),
        None => None,
    }
}

fn find_named(data: &[u8]) -> (r: Option<(&[u8], &[u8])>)
    ensures
        match r {
            Some((kind, after)) => named(data@) == Some((kind@, after@)),
            None => named(data@) is None,
        },
{
    match find_inside(data, der::SEQUENCE) {
        Some((fields, _)) => find_inside(fields, der::OBJECT_ID),
        None => None,
    }
}

// -------------------------------------------------------------------- what is safe

/// Whether an element can be passed over: it does not say that it is longer than
/// any data can be.
pub open spec fn is_skippable(data: Seq<u8>) -> bool {
    der::front(data) !is TooLong
}

fn check_skippable(data: &[u8]) -> (r: bool)
    ensures
        r == is_skippable(data@),
{
    match find_front(data) {
        Found::TooLong => false,
        _ => true,
    }
}

/// How often a password may be hashed. More rounds take more than a lifetime.
pub const MOST_ROUNDS: u64 = 0xff_ffff_ffff_ffff;

/// Whether an algorithm can be read: the parameters of one that is not known are
/// passed over.
pub open spec fn is_safe_algorithm(data: Seq<u8>) -> bool {
    named(data) matches Some((kind, params)) ==> is_password_algorithm(kind) || kind == sha1()
        || is_skippable(params)
}

/// Whether an algorithm comes to an end. The rounds of hashing stand behind a
/// string of bytes.
pub open spec fn is_finite_algorithm(data: Seq<u8>) -> bool {
    named(data) matches Some((kind, params)) ==> (is_password_algorithm(kind) ==> (der::inside(
        params,
        der::SEQUENCE,
    ) matches Some((fields, _)) ==> (der::inside(fields, der::OCTET_STRING) matches Some((_, after))
        ==> (der::inside(after, der::INTEGER) matches Some((rounds, _)) ==> der::number(rounds)
        <= MOST_ROUNDS))))
}

fn check_rounds(bytes: &[u8]) -> (r: bool)
    ensures
        r == (der::number(bytes@) <= MOST_ROUNDS),
{
    let mut value: u64 = 0;
    let mut fits = true;
    for i in 0..bytes.len()
        invariant
            fits ==> value == der::number(bytes@.take(i as int)) && value <= MOST_ROUNDS,
            !fits ==> der::number(bytes@.take(i as int)) > MOST_ROUNDS,
    {
        assert(bytes@.take(i + 1).drop_last() =~= bytes@.take(i as int));
        if fits {
            value = value * 256 + bytes[i] as u64;
            fits = value <= MOST_ROUNDS;
        }
    }
    assert(bytes@.take(bytes@.len() as int) =~= bytes@);
    fits
}

fn check_algorithm(data: &[u8]) -> (r: bool)
    ensures
        r == is_safe_algorithm(data@),
{
    match find_named(data) {
        Some((kind, params)) => check_password_algorithm(kind) || is_sha1(kind) || check_skippable(
            params,
        ),
        None => true,
    }
}

fn check_finite(data: &[u8]) -> (r: bool)
    ensures
        r == is_finite_algorithm(data@),
{
    if let Some((kind, params)) = find_named(data) {
        if check_password_algorithm(kind) {
            if let Some((fields, _)) = find_inside(params, der::SEQUENCE) {
                if let Some((_, after)) = find_inside(fields, der::OCTET_STRING) {
                    if let Some((rounds, _)) = find_inside(after, der::INTEGER) {
                        return check_rounds(rounds);
                    }
                }
            }
        }
    }
    true
}

/// What an encrypted part says of itself.
pub struct Sealed {
    pub version: Seq<u8>,
    /// The type of what is encrypted, and behind it the algorithm and the
    /// encrypted bytes.
    pub info: Option<(Seq<u8>, Seq<u8>)>,
}

/// What the content of an encrypted part says of itself.
pub open spec fn sealed_content(content: Seq<u8>) -> Option<Sealed> {
    match der::inside(content, der::SEQUENCE) {
        Some((fields, _)) => match der::inside(fields, der::INTEGER) {
            Some((version, after)) => Some(Sealed { version, info: named(after) }),
            None => None,
        },
        None => None,
    }
}

/// What a part says of itself, if it is encrypted.
pub open spec fn sealed(part: Seq<u8>) -> Option<Sealed> {
    match named(part) {
        Some((kind, after)) => if kind == encrypted_type() {
            match der::inside(after, der::TAGGED_0) {
                Some((content, _)) => sealed_content(content),
                None => None,
            }
        } else {
            None
        },
        None => None,
    }
}

/// Whether a part, if it is encrypted, has the version zero and holds plain
/// contents.
pub open spec fn is_standard_part(part: Seq<u8>) -> bool {
    sealed(part) matches Some(sealed) ==> sealed.version == seq![0u8] && (
    sealed.info matches Some((kind, _)) ==> kind == data_type())
}

/// Whether what a part holds can be read, whatever its version and type.
pub open spec fn has_safe_content(part: Seq<u8>) -> bool {
    named(part) matches Some((kind, after)) ==> (der::inside(
        after,
        der::TAGGED_0,
    ) matches Some((content, _)) ==> if kind == data_type() {
        true
    } else if kind == encrypted_type() {
        sealed_content(content) matches Some(sealed) ==> (sealed.info matches Some((_, rest))
            ==> is_safe_algorithm(rest) && is_finite_algorithm(rest))
    } else {
        is_skippable(content)
    })
}

/// Whether a part can be read.
pub open spec fn is_safe_part(part: Seq<u8>) -> bool {
    is_standard_part(part) && has_safe_content(part)
}

/// Whether the check sum behind a part can be read.
pub open spec fn is_safe_mac(data: Seq<u8>) -> bool {
    der::inside(data, der::SEQUENCE) matches Some((mac, _)) ==> (der::inside(
        mac,
        der::SEQUENCE,
    ) matches Some((digest, _)) ==> is_safe_algorithm(digest))
}

/// Whether a container can be read: a version, a part, and perhaps a check sum.
pub open spec fn is_safe_container(data: Seq<u8>) -> bool {
    der::inside(data, der::SEQUENCE) matches Some((fields, _)) ==> (der::inside(
        fields,
        der::INTEGER,
    ) matches Some((_, part)) ==> is_safe_part(part) && (der::front(part) matches der::Front::Element {
        rest,
        ..
    } ==> is_safe_mac(rest)))
}

/// Whether the value of a bag can be read. That of a bag of another type is
/// passed over.
pub open spec fn is_safe_value(kind: Seq<u8>, value: Seq<u8>) -> bool {
    if kind == cert_bag() {
        true
    } else if kind == key_bag() {
        der::inside(value, der::SEQUENCE) matches Some((info, _)) ==> is_safe_algorithm(info)
            && is_finite_algorithm(info)
    } else {
        is_skippable(value)
    }
}

/// Whether an attribute can be read. The values of one that is not known are
/// passed over, one after the other.
pub open spec fn is_safe_attribute(data: Seq<u8>) -> bool {
    named(data) matches Some((kind, after)) ==> is_read_attribute(kind) || (der::inside(
        after,
        der::SET,
    ) matches Some((values, _)) ==> is_skippable(der::remainder(values)))
}

pub open spec fn are_safe_attributes(list: Seq<Seq<u8>>) -> bool {
    forall|i: int| 0 <= i < list.len() ==> is_safe_attribute(#[trigger] list[i])
}

/// Whether a bag can be read: its type, its value, and perhaps its attributes.
pub open spec fn is_safe_bag(data: Seq<u8>) -> bool {
    named(data) matches Some((kind, after)) ==> (der::inside(
        after,
        der::TAGGED_0,
    ) matches Some((value, attributes)) ==> is_safe_value(kind, value) && (der::inside(
        attributes,
        der::SET,
    ) matches Some((list, _)) ==> are_safe_attributes(der::elements(list))))
}

pub open spec fn are_safe_bags(bags: Seq<Seq<u8>>) -> bool {
    forall|i: int| 0 <= i < bags.len() ==> is_safe_bag(#[trigger] bags[i])
}

/// Whether a sequence of bags can be read.
pub open spec fn has_safe_bags(data: Seq<u8>) -> bool {
    der::inside(data, der::SEQUENCE) matches Some((bags, _)) ==> are_safe_bags(der::elements(bags))
}

/// Whether each of the parts can be read, and so can the bags that it gives.
pub open spec fn are_safe_parts(parts: Seq<Seq<u8>>, password: Seq<u8>) -> bool {
    forall|i: int|
        0 <= i < parts.len() ==> is_safe_part(#[trigger] parts[i]) && (part_data(
            parts[i],
            password,
        ) matches Some(bags) ==> has_safe_bags(bags))
}

/// Whether the contents of a container can be read, which are a sequence of
/// parts.
pub open spec fn are_safe_contents(contents: Seq<u8>, password: Seq<u8>) -> bool {
    der::inside(contents, der::SEQUENCE) matches Some((parts, _)) ==> are_safe_parts(
        der::elements(parts),
        password,
    )
}

// -------------------------------------------------------------------- outside calls

/// The contents of a container, from `p12::PFX::parse` and
/// `p12::ContentInfo::data`.
///
/// Trusted: whether the bytes are a container, and the contents it gives, are
/// functions of the bytes and of the password alone. The call panics where an
/// element that it passes over has a length that overflows when it is added to a
/// position, and in builds with debug assertions on an encrypted part whose
/// version is not zero or whose contents are not plain. It hashes the password as
/// often as the container says, which may be longer than anyone can wait.
#[verifier::external_body]
pub(crate) fn open_container(data: &[u8], password: &[u8]) -> (r: Result<
    Option<Vec<u8>>,
    NoContainer,
>)
    requires
        is_safe_container(data@),
    ensures
        match r {
            Ok(contents) => pfx_parses(data@) && pfx_contents(data@, password@) == (
            match contents {
                Some(bytes) => Some(bytes@),
                None => None,
            }),
            Err(_) => !pfx_parses(data@),
        },
{
    let container = p12::PFX::parse(data).map_err(|_| NoContainer)?;
    Ok(container.auth_safe.data(password))
}

/// What one part of a container holds, from `p12::ContentInfo::from_der` and
/// `p12::ContentInfo::data`.
///
/// Trusted: what comes out, if anything does, is a function of the bytes and of
/// the password alone. The call panics where that of a container does.
#[verifier::external_body]
pub(crate) fn open_part(part: &[u8], password: &[u8]) -> (r: Option<Vec<u8>>)
    requires
        is_safe_part(part@),
    ensures
        match r {
            Some(bytes) => part_data(part@, password@) == Some(bytes@),
            None => part_data(part@, password@) is None,
        },
{
    p12::ContentInfo::from_der(part).ok()?.data(password)
}

/// The keys of a container with these contents, from `p12::PFX::key_bags`.
///
/// Trusted: the keys, if any come out, are a function of the contents and of the
/// password alone; of a container, the call reads nothing but its contents. It
/// reads the parts of these, and the bags that each part gives. It panics where
/// the reading of any of them does, or of the parameters, the value or the
/// attributes of a bag that it passes over.
#[verifier::external_body]
pub(crate) fn read_key_bags(contents: &[u8], password: &str) -> (r: Option<Vec<Vec<u8>>>)
    requires
        password@.len() <= usize::MAX / 32,
        are_safe_contents(contents@, password_bytes(password@)),
    ensures
        match r {
            Some(keys) => pfx_key_bags(contents@, password@) == Some(bytes_of(keys@)),
            None => pfx_key_bags(contents@, password@) is None,
        },
{
    let auth_safe = p12::ContentInfo::Data(contents.to_vec());
    let container = p12::PFX { version: 3, auth_safe, mac_data: None };
    container.key_bags(password).ok()
}

/// The certificates of a container with these contents, from
/// `p12::PFX::cert_bags`.
///
/// Trusted: the certificates, if any come out, are a function of the contents and
/// of the password alone; of a container, the call reads nothing but its
/// contents. It panics where the reading of the keys does.
#[verifier::external_body]
pub(crate) fn read_cert_bags(contents: &[u8], password: &str) -> (r: Option<Vec<Vec<u8>>>)
    requires
        password@.len() <= usize::MAX / 32,
        are_safe_contents(contents@, password_bytes(password@)),
    ensures
        match r {
            Some(certs) => pfx_cert_bags(contents@, password@) == Some(bytes_of(certs@)),
            None => pfx_cert_bags(contents@, password@) is None,
        },
{
    let auth_safe = p12::ContentInfo::Data(contents.to_vec());
    let container = p12::PFX { version: 3, auth_safe, mac_data: None };
    container.cert_bags(password).ok()
}

// --------------------------------------------------------------------- safety tests

fn find_sealed_info(content: &[u8]) -> (r: Option<(&[u8], Option<(&[u8], &[u8])>)>)
    ensures
        match r {
            Some((version, info)) => sealed_content(content@) == Some(
                Sealed {
                    version: version@,
                    info: match info {
                        Some((kind, rest)) => Some((kind@, rest@)),
                        None => None,
                    },
                },
            ),
            None => sealed_content(content@) is None,
        },
{
    if let Some((fields, _)) = find_inside(content, der::SEQUENCE) {
        if let Some((version, after)) = find_inside(fields, der::INTEGER) {
            return Some((version, find_named(after)));
        }
    }
    None
}

fn is_zero(version: &[u8]) -> (r: bool)
    ensures
        r == (version@ == seq![0u8]),
{
    if version.len() == 1 && version[0] == 0 {
        assert(version@ =~= seq![0u8]);
        true
    } else {
        assert(version@ != seq![0u8]) by {
            assert(seq![0u8].len() == 1 && seq![0u8][0] == 0);
        }
        false
    }
}

/// Whether a part, if it is encrypted, has the version zero and holds plain
/// contents.
fn check_standard(part: &[u8]) -> (r: bool)
    ensures
        r == is_standard_part(part@),
{
    if let Some((kind, after)) = find_named(part) {
        if is_encrypted_type(kind) {
            if let Some((content, _)) = find_inside(after, der::TAGGED_0) {
                if let Some((version, info)) = find_sealed_info(content) {
                    return is_zero(version) && match info {
                        Some((inner, _)) => is_data_type(inner),
                        None => true,
                    };
                }
            }
        }
    }
    true
}

fn check_content(part: &[u8]) -> (r: bool)
    ensures
        r == has_safe_content(part@),
{
    if let Some((kind, after)) = find_named(part) {
        if let Some((content, _)) = find_inside(after, der::TAGGED_0) {
            if is_data_type(kind) {
                return true;
            }
            if !is_encrypted_type(kind) {
                return check_skippable(content);
            }
            if let Some((_, Some((_, rest)))) = find_sealed_info(content) {
                return check_algorithm(rest) && check_finite(rest);
            }
        }
    }
    true
}

/// Whether a part can be read.
fn check_part(part: &[u8]) -> (r: bool)
    ensures
        r == is_safe_part(part@),
{
    check_standard(part) && check_content(part)
}

fn check_mac(data: &[u8]) -> (r: bool)
    ensures
        r == is_safe_mac(data@),
{
    if let Some((mac, _)) = find_inside(data, der::SEQUENCE) {
        if let Some((digest, _)) = find_inside(mac, der::SEQUENCE) {
            return check_algorithm(digest);
        }
    }
    true
}

/// Whether a container can be read.
pub fn check_container(data: &[u8]) -> (r: bool)
    ensures
        r == is_safe_container(data@),
{
    if let Some((fields, _)) = find_inside(data, der::SEQUENCE) {
        if let Some((_, part)) = find_inside(fields, der::INTEGER) {
            if !check_part(part) {
                return false;
            }
            if let Found::Element { end, .. } = find_front(part) {
                let rest = slice_subrange(part, end, part.len());
                assert(rest@ =~= part@.skip(end as int));
                return check_mac(rest);
            }
        }
    }
    true
}

fn check_value(kind: &[u8], value: &[u8]) -> (r: bool)
    ensures
        r == is_safe_value(kind@, value@),
{
    if is_cert_bag(kind) {
        return true;
    }
    if !is_key_bag(kind) {
        return check_skippable(value);
    }
    match find_inside(value, der::SEQUENCE) {
        Some((info, _)) => check_algorithm(info) && check_finite(info),
        None => true,
    }
}

fn check_attribute(data: &[u8]) -> (r: bool)
    ensures
        r == is_safe_attribute(data@),
{
    if let Some((kind, after)) = find_named(data) {
        if !check_read_attribute(kind) {
            if let Some((values, _)) = find_inside(after, der::SET) {
                let (_, rest) = find_elements(values);
                return check_skippable(rest);
            }
        }
    }
    true
}

fn check_attributes(list: &Vec<&[u8]>) -> (r: bool)
    ensures
        r == are_safe_attributes(bytes_of_each(list@)),
{
    let ghost all = bytes_of_each(list@);
    for i in 0..list.len()
        invariant
            all == bytes_of_each(list@),
            forall|j: int| 0 <= j < i ==> is_safe_attribute(#[trigger] all[j]),
    {
        assert(all[i as int] == list@[i as int]@);
        if !check_attribute(list[i]) {
            return false;
        }
    }
    true
}

fn check_bag(data: &[u8]) -> (r: bool)
    ensures
        r == is_safe_bag(data@),
{
    if let Some((kind, after)) = find_named(data) {
        if let Some((value, attributes)) = find_inside(after, der::TAGGED_0) {
            if !check_value(kind, value) {
                return false;
            }
            if let Some((list, _)) = find_inside(attributes, der::SET) {
                let (found, _) = find_elements(list);
                return check_attributes(&found);
            }
        }
    }
    true
}

fn check_bag_list(bags: &Vec<&[u8]>) -> (r: bool)
    ensures
        r == are_safe_bags(bytes_of_each(bags@)),
{
    let ghost all = bytes_of_each(bags@);
    for i in 0..bags.len()
        invariant
            all == bytes_of_each(bags@),
            forall|j: int| 0 <= j < i ==> is_safe_bag(#[trigger] all[j]),
    {
        assert(all[i as int] == bags@[i as int]@);
        if !check_bag(bags[i]) {
            return false;
        }
    }
    true
}

fn check_bags(data: &[u8]) -> (r: bool)
    ensures
        r == has_safe_bags(data@),
{
    match find_inside(data, der::SEQUENCE) {
        Some((bags, _)) => {
            let (found, _) = find_elements(bags);
            check_bag_list(&found)
        },
        None => true,
    }
}

/// Opens a part, and finds out whether it can be read, and so can the bags that
/// it gives.
fn check_opened(part: &[u8], password: &[u8]) -> (r: bool)
    ensures
        r == (is_safe_part(part@) && (part_data(part@, password@) matches Some(bags)
            ==> has_safe_bags(bags))),
{
    if !check_part(part) {
        return false;
    }
    match open_part(part, password) {
        Some(bags) => check_bags(bags.as_slice()),
        None => true,
    }
}

fn check_parts(parts: &Vec<&[u8]>, password: &[u8]) -> (r: bool)
    ensures
        r == are_safe_parts(bytes_of_each(parts@), password@),
{
    let ghost all = bytes_of_each(parts@);
    for i in 0..parts.len()
        invariant
            all == bytes_of_each(parts@),
            are_safe_parts(all.take(i as int), password@),
    {
        assert(all[i as int] == parts@[i as int]@);
        assert(all.take(i + 1)[i as int] == all[i as int]);
        if !check_opened(parts[i], password) {
            assert(!are_safe_parts(all, password@));
            return false;
        }
        assert forall|j: int| 0 <= j < i + 1 implies is_safe_part(#[trigger] all.take(i + 1)[j])
            && (part_data(all.take(i + 1)[j], password@) matches Some(bags) ==> has_safe_bags(
            bags,
        )) by {
            if j < i {
                assert(all.take(i as int)[j] == all.take(i + 1)[j]);
            }
        }
    }
    assert(all.take(all.len() as int) =~= all);
    true
}

/// Whether the contents of a container can be read. Opens their parts.
pub fn check_contents(contents: &[u8], password: &[u8]) -> (r: bool)
    ensures
        r == are_safe_contents(contents@, password@),
{
    match find_inside(contents, der::SEQUENCE) {
        Some((parts, _)) => {
            let (found, _) = find_elements(parts);
            check_parts(&found, password)
        },
        None => true,
    }
}

// ----------------------------------------------------------------- encrypted parts

/// The info of an encrypted part, as one of plain contents.
pub open spec fn standard_info(info: Seq<u8>) -> Seq<u8> {
    match der::inside(info, der::OBJECT_ID) {
        Some((kind, rest)) => if der::is_object_id(kind) {
            der::element(der::OBJECT_ID, data_type()) + rest
        } else {
            info
        },
        None => info,
    }
}

/// The fields of an encrypted content, with the version zero.
pub open spec fn standard_fields(fields: Seq<u8>) -> Seq<u8> {
    match der::inside(fields, der::INTEGER) {
        Some((version, after)) => if der::is_byte(version) {
            der::element(der::INTEGER, seq![0u8]) + match der::inside(after, der::SEQUENCE) {
                Some((info, rest)) => der::element(der::SEQUENCE, standard_info(info)) + rest,
                None => after,
            }
        } else {
            fields
        },
        None => fields,
    }
}

pub open spec fn standard_content(content: Seq<u8>) -> Seq<u8> {
    match der::inside(content, der::SEQUENCE) {
        Some((fields, rest)) => der::element(der::SEQUENCE, standard_fields(fields)) + rest,
        None => content,
    }
}

/// A part with the version and the type of the standard in place of others.
/// Nothing depends on these two, and a number or an identifier that cannot be
/// read is left as it is.
pub open spec fn standard_part(part: Seq<u8>) -> Seq<u8> {
    if is_standard_part(part) {
        part
    } else {
        match der::inside(part, der::SEQUENCE) {
            Some((fields, rest)) => match der::inside(fields, der::OBJECT_ID) {
                Some((kind, after)) => match der::inside(after, der::TAGGED_0) {
                    Some((content, last)) => der::element(
                        der::SEQUENCE,
                        der::element(der::OBJECT_ID, kind) + der::element(
                            der::TAGGED_0,
                            standard_content(content),
                        ) + last,
                    ) + rest,
                    None => part,
                },
                None => part,
            },
            None => part,
        }
    }
}

/// A container with its own part made standard.
pub open spec fn standard_container(data: Seq<u8>) -> Seq<u8> {
    match der::inside(data, der::SEQUENCE) {
        Some((fields, rest)) => match der::inside(fields, der::INTEGER) {
            Some((version, part)) => if is_standard_part(part) {
                data
            } else {
                der::element(
                    der::SEQUENCE,
                    der::element(der::INTEGER, version) + standard_part(part),
                ) + rest
            },
            None => data,
        },
        None => data,
    }
}

pub open spec fn are_standard(parts: Seq<Seq<u8>>) -> bool {
    forall|i: int| 0 <= i < parts.len() ==> is_standard_part(#[trigger] parts[i])
}

/// Parts one behind the other, each made standard.
pub open spec fn standard_parts(parts: Seq<Seq<u8>>) -> Seq<u8>
    decreases parts.len(),
{
    if parts.len() == 0 {
        Seq::<u8>::empty()
    } else {
        standard_parts(parts.drop_last()) + standard_part(parts.last())
    }
}

/// The contents of a container with each of their parts made standard.
pub open spec fn standard_contents(contents: Seq<u8>) -> Seq<u8> {
    match der::inside(contents, der::SEQUENCE) {
        Some((parts, rest)) => if are_standard(der::elements(parts)) {
            contents
        } else {
            der::element(
                der::SEQUENCE,
                standard_parts(der::elements(parts)) + der::remainder(parts),
            ) + rest
        },
        None => contents,
    }
}

fn copy(bytes: &[u8]) -> (r: Vec<u8>)
    ensures
        r@ == bytes@,
{
    let mut out: Vec<u8> = Vec::new();
    push_bytes(&mut out, bytes);
    assert(out@ =~= bytes@);
    out
}

fn make_info(info: &[u8]) -> (r: Vec<u8>)
    ensures
        r@ == standard_info(info@),
{
    if let Some((kind, rest)) = find_inside(info, der::OBJECT_ID) {
        if check_object_id(kind) {
            let data: Vec<u8> = vec![0x2a, 0x86, 0x48, 0x86, 0xf7, 0x0d, 0x01, 0x07, 0x01];
            assert(data@ =~= data_type());
            let mut out: Vec<u8> = Vec::new();
            push_element(&mut out, der::OBJECT_ID, data.as_slice());
            push_bytes(&mut out, rest);
            assert(out@ =~= standard_info(info@));
            return out;
        }
    }
    copy(info)
}

fn make_fields(fields: &[u8]) -> (r: Vec<u8>)
    ensures
        r@ == standard_fields(fields@),
{
    if let Some((version, after)) = find_inside(fields, der::INTEGER) {
        if check_byte(version) {
            let zero: Vec<u8> = vec![0];
            assert(zero@ =~= seq![0u8]);
            let mut out: Vec<u8> = Vec::new();
            push_element(&mut out, der::INTEGER, zero.as_slice());
            match find_inside(after, der::SEQUENCE) {
                Some((info, rest)) => {
                    push_element(&mut out, der::SEQUENCE, make_info(info).as_slice());
                    push_bytes(&mut out, rest);
                },
                None => {
                    push_bytes(&mut out, after);
                },
            }
            assert(out@ =~= standard_fields(fields@));
            return out;
        }
    }
    copy(fields)
}

fn make_content(content: &[u8]) -> (r: Vec<u8>)
    ensures
        r@ == standard_content(content@),
{
    match find_inside(content, der::SEQUENCE) {
        Some((fields, rest)) => {
            let mut out: Vec<u8> = Vec::new();
            push_element(&mut out, der::SEQUENCE, make_fields(fields).as_slice());
            push_bytes(&mut out, rest);
            assert(out@ =~= standard_content(content@));
            out
        },
        None => copy(content),
    }
}

/// A part with the version and the type of the standard in place of others.
fn make_part(part: &[u8]) -> (r: Vec<u8>)
    ensures
        r@ == standard_part(part@),
{
    if check_standard(part) {
        return copy(part);
    }
    if let Some((fields, rest)) = find_inside(part, der::SEQUENCE) {
        if let Some((kind, after)) = find_inside(fields, der::OBJECT_ID) {
            if let Some((content, last)) = find_inside(after, der::TAGGED_0) {
                let mut inner: Vec<u8> = Vec::new();
                push_element(&mut inner, der::OBJECT_ID, kind);
                push_element(&mut inner, der::TAGGED_0, make_content(content).as_slice());
                push_bytes(&mut inner, last);
                assert(inner@ =~= der::element(der::OBJECT_ID, kind@) + der::element(
                    der::TAGGED_0,
                    standard_content(content@),
                ) + last@);
                let mut out: Vec<u8> = Vec::new();
                push_element(&mut out, der::SEQUENCE, inner.as_slice());
                push_bytes(&mut out, rest);
                assert(out@ =~= standard_part(part@));
                return out;
            }
        }
    }
    copy(part)
}

/// A container with its own part made standard.
pub fn make_container(data: &[u8]) -> (r: Vec<u8>)
    ensures
        r@ == standard_container(data@),
{
    if let Some((fields, rest)) = find_inside(data, der::SEQUENCE) {
        if let Some((version, part)) = find_inside(fields, der::INTEGER) {
            if !check_standard(part) {
                let mut inner: Vec<u8> = Vec::new();
                push_element(&mut inner, der::INTEGER, version);
                push_bytes(&mut inner, make_part(part).as_slice());
                assert(inner@ =~= der::element(der::INTEGER, version@) + standard_part(part@));
                let mut out: Vec<u8> = Vec::new();
                push_element(&mut out, der::SEQUENCE, inner.as_slice());
                push_bytes(&mut out, rest);
                assert(out@ =~= standard_container(data@));
                return out;
            }
        }
    }
    copy(data)
}

fn all_standard(parts: &Vec<&[u8]>) -> (r: bool)
    ensures
        r == are_standard(bytes_of_each(parts@)),
{
    let ghost all = bytes_of_each(parts@);
    for i in 0..parts.len()
        invariant
            all == bytes_of_each(parts@),
            forall|j: int| 0 <= j < i ==> is_standard_part(#[trigger] all[j]),
    {
        assert(all[i as int] == parts@[i as int]@);
        if !check_standard(parts[i]) {
            return false;
        }
    }
    true
}

fn make_parts(parts: &Vec<&[u8]>) -> (r: Vec<u8>)
    ensures
        r@ == standard_parts(bytes_of_each(parts@)),
{
    let ghost all = bytes_of_each(parts@);
    let mut out: Vec<u8> = Vec::new();
    for i in 0..parts.len()
        invariant
            all == bytes_of_each(parts@),
            out@ == standard_parts(all.take(i as int)),
    {
        assert(all.take(i + 1).drop_last() =~= all.take(i as int));
        assert(all.take(i + 1).last() == parts@[i as int]@);
        push_bytes(&mut out, make_part(parts[i]).as_slice());
    }
    assert(all.take(all.len() as int) =~= all);
    out
}

/// The contents of a container with each of their parts made standard.
pub fn make_contents(contents: &[u8]) -> (r: Vec<u8>)
    ensures
        r@ == standard_contents(contents@),
{
    if let Some((parts, rest)) = find_inside(contents, der::SEQUENCE) {
        let (found, left) = find_elements(parts);
        if !all_standard(&found) {
            let mut inner = make_parts(&found);
            push_bytes(&mut inner, left);
            let mut out: Vec<u8> = Vec::new();
            push_element(&mut out, der::SEQUENCE, inner.as_slice());
            push_bytes(&mut out, rest);
            assert(out@ =~= standard_contents(contents@));
            return out;
        }
    }
    copy(contents)
}

/// What needs no change is not changed: a container whose part is standard, contents
/// whose parts all are, and what is no container at all.
pub proof fn what_is_standard_stays(data: Seq<u8>)
    ensures
        der::inside(data, der::SEQUENCE) is None ==> standard_container(data) == data
            && standard_contents(data) == data,
        der::inside(data, der::SEQUENCE) matches Some((fields, _)) ==> (der::inside(
            fields,
            der::INTEGER,
        ) matches Some((_, part)) ==> is_standard_part(part) ==> standard_container(data) == data),
        der::inside(data, der::SEQUENCE) matches Some((parts, _)) ==> (forall|i: int|
            0 <= i < der::elements(parts).len() ==> is_standard_part(
                #[trigger] der::elements(parts)[i],
            )) ==> standard_contents(data) == data,
        is_standard_part(data) ==> standard_part(data) == data,
{
}

/// A part that is read and that is encrypted has the version zero and plain contents,
/// and is decrypted in a time that ends: a password is hashed no more than a lifetime
/// allows.
pub proof fn what_is_encrypted_is_read_in_time(part: Seq<u8>)
    requires
        is_safe_part(part),
    ensures
        sealed(part) matches Some(sealed) ==> {
            &&& sealed.version == seq![0u8]
            &&& sealed.info matches Some((kind, rest)) ==> {
                &&& kind == pkcs(seq![0x07u8, 0x01])
                &&& named(rest) matches Some((algorithm, params)) ==> {
                    let hashed = algorithm == pkcs(seq![0x0cu8, 0x01, 0x03]) || algorithm == pkcs(
                        seq![0x0cu8, 0x01, 0x06],
                    );
                    &&& hashed ==> (der::inside(params, der::SEQUENCE) matches Some((fields, _))
                        ==> (der::inside(fields, der::OCTET_STRING) matches Some((_, after)) ==> (
                    der::inside(after, der::INTEGER) matches Some((rounds, _)) ==> der::number(
                        rounds,
                    ) <= 0xff_ffff_ffff_ffff)))
                    &&& !hashed && algorithm != sha1() ==> !(der::front(params) is TooLong)
                }
            }
        },
{
    assert(data_type().last() == 0x01);
    assert(encrypted_type().last() == 0x06);
}

/// A bag that is read has a value that can be: a key is decrypted in a time that ends,
/// and what is passed over is not longer than any data can be. So are its attributes.
pub proof fn what_a_bag_may_hold(
    data: Seq<u8>,
    kind: Seq<u8>,
    after: Seq<u8>,
    value: Seq<u8>,
    rest: Seq<u8>,
)
    requires
        is_safe_bag(data),
        named(data) == Some((kind, after)),
        der::inside(after, der::TAGGED_0) == Some((value, rest)),
    ensures
        kind == pkcs(seq![0x0cu8, 0x0a, 0x01, 0x02]) ==> (der::inside(
            value,
            der::SEQUENCE,
        ) matches Some((info, _)) ==> is_finite_algorithm(info) && is_safe_algorithm(info)),
        kind != pkcs(seq![0x0cu8, 0x0a, 0x01, 0x02]) && kind != pkcs(
            seq![0x0cu8, 0x0a, 0x01, 0x03],
        ) ==> !(der::front(value) is TooLong),
        der::inside(rest, der::SET) matches Some((list, _)) ==> forall|i: int|
            0 <= i < der::elements(list).len() ==> is_safe_attribute(
                #[trigger] der::elements(list)[i],
            ),
{
    assert(key_bag().last() == 0x02);
    assert(cert_bag().last() == 0x03);
}

/// An algorithm that is known is not refused, but for more rounds than a lifetime allows.
/// The attributes that are read are never refused.
pub proof fn what_is_known_is_read(data: Seq<u8>, kind: Seq<u8>, after: Seq<u8>)
    requires
        named(data) == Some((kind, after)),
    ensures
        kind == pkcs(seq![0x0cu8, 0x01, 0x03]) || kind == pkcs(seq![0x0cu8, 0x01, 0x06]) || kind
            == sha1() ==> is_safe_algorithm(data),
        !(der::front(after) is TooLong) ==> is_safe_algorithm(data),
        !is_finite_algorithm(data) ==> (der::inside(after, der::SEQUENCE) matches Some((fields, _))
            && (der::inside(fields, der::OCTET_STRING) matches Some((_, rest)) && (der::inside(
            rest,
            der::INTEGER,
        ) matches Some((rounds, _)) && der::number(rounds) > 0xff_ffff_ffff_ffff))),
        kind == pkcs(seq![0x09u8, 0x14]) || kind == pkcs(seq![0x09u8, 0x15]) ==> is_safe_attribute(
            data,
        ),
{
}

/// A part that is not encrypted is never refused, whatever it holds.
pub proof fn what_is_not_encrypted_is_read(part: Seq<u8>)
    ensures
        named(part) is None ==> is_safe_part(part),
        named(part) matches Some((kind, _)) ==> kind == pkcs(seq![0x07u8, 0x01]) ==> is_safe_part(
            part,
        ),
        named(part) matches Some((kind, after)) ==> der::inside(after, der::TAGGED_0) is None
            ==> is_safe_part(part),
{
    if let Some((kind, _)) = named(part) {
        assert(pkcs(seq![0x07u8, 0x01]).last() == 0x01);
        assert(encrypted_type().last() == 0x06);
    }
}

/// Whether a part, if it is encrypted, has a version and a type that can be read
/// at all.
pub open spec fn is_legible_part(part: Seq<u8>) -> bool {
    sealed(part) matches Some(sealed) ==> der::is_byte(sealed.version) && (
    sealed.info matches Some((kind, _)) ==> der::is_object_id(kind))
}

/// No part is refused for its version or its type: if these can be read at all,
/// the part is made standard, and the algorithm and the encrypted bytes stay as
/// they are.
pub proof fn a_part_is_made_standard(part: Seq<u8>)
    requires
        is_legible_part(part),
        part.len() + 100 <= usize::MAX / 2,
    ensures
        is_standard_part(standard_part(part)),
        sealed(part) is Some == sealed(standard_part(part)) is Some,
        sealed(part) matches Some(before) ==> (sealed(standard_part(part)) matches Some(after)
            && match (before.info, after.info) {
            (Some((_, x)), Some((_, y))) => x == y,
            (None, None) => true,
            _ => false,
        }),
{
    if is_standard_part(part) {
        return;
    }
    let (fields, rest) = der::inside(part, der::SEQUENCE)->Some_0;
    let (kind, after) = der::inside(fields, der::OBJECT_ID)->Some_0;
    let (content, last) = der::inside(after, der::TAGGED_0)->Some_0;
    let (inner, behind) = der::inside(content, der::SEQUENCE)->Some_0;
    let (version, tail) = der::inside(inner, der::INTEGER)->Some_0;
    der::contents_are_shorter(part, der::SEQUENCE);
    der::contents_are_shorter(fields, der::OBJECT_ID);
    der::contents_are_shorter(after, der::TAGGED_0);
    der::contents_are_shorter(content, der::SEQUENCE);
    der::contents_are_shorter(inner, der::INTEGER);
    der::contents_are_shorter(tail, der::SEQUENCE);
    let new_tail = match der::inside(tail, der::SEQUENCE) {
        Some((info, end)) => {
            der::contents_are_shorter(info, der::OBJECT_ID);
            if let Some((_, sealed_bytes)) = der::inside(info, der::OBJECT_ID) {
                der::an_element_holds_its_contents(der::OBJECT_ID, data_type(), sealed_bytes);
            }
            assert(standard_info(info).len() <= info.len() + 20);
            der::an_element_holds_its_contents(der::SEQUENCE, standard_info(info), end);
            der::element(der::SEQUENCE, standard_info(info)) + end
        },
        None => tail,
    };
    der::an_element_holds_its_contents(der::INTEGER, seq![0u8], new_tail);
    assert(standard_fields(inner) == der::element(der::INTEGER, seq![0u8]) + new_tail);
    der::an_element_holds_its_contents(der::SEQUENCE, standard_fields(inner), behind);
    der::an_element_holds_its_contents(der::TAGGED_0, standard_content(content), last);
    let new_after = der::element(der::TAGGED_0, standard_content(content)) + last;
    der::an_element_holds_its_contents(der::OBJECT_ID, kind, new_after);
    let new_fields = der::element(der::OBJECT_ID, kind) + new_after;
    assert(new_fields =~= der::element(der::OBJECT_ID, kind) + der::element(
        der::TAGGED_0,
        standard_content(content),
    ) + last);
    der::an_element_holds_its_contents(der::SEQUENCE, new_fields, rest);
    assert(standard_part(part) == der::element(der::SEQUENCE, new_fields) + rest);
}

} // verus!
