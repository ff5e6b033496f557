//! The shape of DER data: elements of an identifier, a length and contents, one
//! behind the other and one inside the other.
use vstd::prelude::*;
use vstd::slice::slice_subrange;

verus! {

/// The identifier of a sequence.
pub const SEQUENCE: u8 = 0x30;

/// The identifier of an integer.
pub const INTEGER: u8 = 0x02;

/// The identifier of a string of bytes.
pub const OCTET_STRING: u8 = 0x04;

/// The identifier of an object identifier.
pub const OBJECT_ID: u8 = 0x06;

/// The identifier of a set.
pub const SET: u8 = 0x31;

/// The identifier of contents that are tagged with zero.
pub const TAGGED_0: u8 = 0xa0;

/// What stands at the front of some data.
pub enum Front {
    /// No complete element.
    Nothing,
    /// An element that says it is longer than any data can be.
    TooLong,
    Element { id: u8, contents: Seq<u8>, rest: Seq<u8> },
}

/// How many bytes an identifier takes behind its first: up to one below 128.
pub open spec fn long_id_len(data: Seq<u8>) -> Option<nat>
    decreases data.len(),
{
    if data.len() == 0 {
        None
    } else if data[0] < 128 {
        Some(1)
    } else {
        match long_id_len(data.skip(1)) {
            Some(n) => Some(n + 1),
            None => None,
        }
    }
}

/// How many bytes the identifier at the front takes.
pub open spec fn id_len(data: Seq<u8>) -> Option<nat> {
    if data.len() == 0 {
        None
    } else if data[0] % 32 != 31 {
        Some(1)
    } else {
        match long_id_len(data.skip(1)) {
            Some(n) => Some(n + 1),
            None => None,
        }
    }
}

/// The number that bytes stand for, the highest first.
pub open spec fn number(bytes: Seq<u8>) -> nat
    decreases bytes.len(),
{
    if bytes.len() == 0 {
        0
    } else {
        number(bytes.drop_last()) * 256 + bytes.last() as nat
    }
}

/// How many bytes the length at the front takes, and what it says. Below 128 it
/// takes one byte.
pub open spec fn declared(data: Seq<u8>) -> Option<(nat, nat)> {
    if data.len() == 0 || data[0] == 128 || data[0] == 255 {
        None
    } else if data[0] < 128 {
        Some((1, data[0] as nat))
    } else {
        let n = data[0] - 128;
        if data.len() < 1 + n || number(data.subrange(1, 1 + n)) < 128 {
            None
        } else {
            Some(((1 + n) as nat, number(data.subrange(1, 1 + n))))
        }
    }
}

pub open spec fn front(data: Seq<u8>) -> Front {
    match id_len(data) {
        Some(i) => match declared(data.skip(i as int)) {
            Some((n, length)) => if length > usize::MAX / 2 {
                Front::TooLong
            } else if data.len() < i + n + length {
                Front::Nothing
            } else {
                Front::Element {
                    id: data[0],
                    contents: data.subrange((i + n) as int, (i + n + length) as int),
                    rest: data.skip((i + n + length) as int),
                }
            },
            None => Front::Nothing,
        },
        None => Front::Nothing,
    }
}

/// The contents of the element at the front, if it has that identifier, and what
/// follows it.
#[verifier::opaque]
pub open spec fn inside(data: Seq<u8>, id: u8) -> Option<(Seq<u8>, Seq<u8>)> {
    match front(data) {
        Front::Element { id: found, contents, rest } => if found == id {
            Some((contents, rest))
        } else {
            None
        },
        _ => None,
    }
}

/// The complete elements that stand one behind the other.
pub open spec fn elements(data: Seq<u8>) -> Seq<Seq<u8>>
    decreases data.len(),
{
    match front(data) {
        Front::Element { rest, .. } => seq![data.take(data.len() - rest.len())] + elements(rest),
        _ => Seq::<Seq<u8>>::empty(),
    }
}

/// What follows the last complete element.
pub open spec fn remainder(data: Seq<u8>) -> Seq<u8>
    decreases data.len(),
{
    match front(data) {
        Front::Element { rest, .. } => remainder(rest),
        _ => data,
    }
}

/// Whether the contents of an integer are those of a number that one byte holds.
pub open spec fn is_byte(contents: Seq<u8>) -> bool {
    ||| contents.len() == 1 && contents[0] < 128
    ||| contents.len() == 2 && contents[0] == 0 && contents[1] >= 128
}

/// What is under way of an arc of an object identifier, behind these bytes. A
/// byte below 128 ends an arc.
pub open spec fn open_arc(bytes: Seq<u8>) -> nat
    decreases bytes.len(),
{
    if bytes.len() == 0 || bytes.last() < 128 {
        0
    } else {
        open_arc(bytes.drop_last()) * 128 + (bytes.last() - 128) as nat
    }
}

/// Whether contents are those of an object identifier, each arc of which fits 64
/// bits.
pub open spec fn is_object_id(contents: Seq<u8>) -> bool {
    &&& contents.len() > 0
    &&& contents.last() < 128
    &&& forall|i: int| 0 <= i < contents.len() ==> #[trigger] contents[i] != 128
    &&& forall|i: int|
        0 <= i < contents.len() ==> open_arc(#[trigger] contents.take(i)) * 128 <= u64::MAX
}

/// The bytes of a number, the highest first, without zeros before them.
pub open spec fn digits(n: nat) -> Seq<u8>
    decreases n,
{
    if n == 0 {
        Seq::<u8>::empty()
    } else {
        digits(n / 256).push((n % 256) as u8)
    }
}

/// A length as it is written.
pub open spec fn written_length(n: nat) -> Seq<u8> {
    if n < 128 {
        seq![n as u8]
    } else {
        seq![(128 + digits(n).len()) as u8] + digits(n)
    }
}

/// An element as it is written.
pub open spec fn element(id: u8, contents: Seq<u8>) -> Seq<u8> {
    seq![id] + written_length(contents.len()) + contents
}

/// Where the contents of the element at the front begin and end.
#[derive(Clone, Copy, Debug, PartialEq, Eq)]
pub enum Found {
    Nothing,
    TooLong,
    Element { start: usize, end: usize },
}

/// Whether `found` says where the element at the front of `data` is.
pub open spec fn is_found(found: Found, data: Seq<u8>) -> bool {
    match (found, front(data)) {
        (Found::Nothing, Front::Nothing) => true,
        (Found::TooLong, Front::TooLong) => true,
        (Found::Element { start, end }, Front::Element { id, contents, rest }) => {
            &&& 0 < start <= end <= data.len()
            &&& id == data[0]
            &&& contents == data.subrange(start as int, end as int)
            &&& rest == data.skip(end as int)
        },
        _ => false,
    }
}

fn find_id(data: &[u8]) -> (r: Option<usize>)
    ensures
        match r {
            Some(n) => id_len(data@) == Some(n as nat) && 0 < n <= data@.len(),
            None => id_len(data@) is None,
        },
{
    if data.len() == 0 {
        return None;
    }
    if data[0] % 32 != 31 {
        return Some(1);
    }
    let mut i: usize = 1;
    assert(data@.skip(1) =~= data@.skip(i as int));
    while i < data.len()
        invariant
            1 <= i <= data@.len(),
            data@.len() > 0,
            data@[0] % 32 == 31,
            long_id_len(data@.skip(1)) == (match long_id_len(data@.skip(i as int)) {
                Some(n) => Some((n + i - 1) as nat),
                None => None,
            }),
        decreases data@.len() - i,
    {
        assert(data@.skip(i as int)[0] == data@[i as int]);
        if data[i] < 128 {
            return Some(i + 1);
        }
        assert(data@.skip(i as int).skip(1) =~= data@.skip(i + 1));
        i = i + 1;
    }
    None
}

/// The number that bytes stand for, if it is no more than half of what a `usize`
/// holds.
fn small_number(bytes: &[u8]) -> (r: Option<usize>)
    ensures
        match r {
            Some(n) => n == number(bytes@) && n <= usize::MAX / 2,
            None => number(bytes@) > usize::MAX / 2,
        },
{
    let limit: usize = usize::MAX / 2;
    let mut value: usize = 0;
    let mut fits = true;
    for i in 0..bytes.len()
        invariant
            limit == usize::MAX / 2,
            limit >= 256,
            fits ==> value == number(bytes@.take(i as int)) && value <= limit,
            !fits ==> number(bytes@.take(i as int)) > limit,
    {
        assert(bytes@.take(i + 1).drop_last() =~= bytes@.take(i as int));
        if fits {
            let byte: usize = bytes[i] as usize;
            if value > (limit - byte) / 256 {
                fits = false;
            } else {
                value = value * 256 + byte;
            }
        }
    }
    assert(bytes@.take(bytes@.len() as int) =~= bytes@);
    if fits {
        Some(value)
    } else {
        None
    }
}

/// Finds the element at the front.
pub fn find_front(data: &[u8]) -> (r: Found)
    ensures
        is_found(r, data@),
{
    let i = match find_id(data) {
        Some(i) => i,
        None => {
            return Found::Nothing;
        },
    };
    if i == data.len() {
        return Found::Nothing;
    }
    let ghost tail = data@.skip(i as int);
    assert(tail[0] == data@[i as int]);
    let first: usize = data[i] as usize;
    if first == 128 || first == 255 {
        return Found::Nothing;
    }
    let start: usize;
    let length: usize;
    if first < 128 {
        start = i + 1;
        length = first;
    } else {
        let n: usize = first - 128;
        if data.len() - i - 1 < n {
            return Found::Nothing;
        }
        start = i + 1 + n;
        let octets = slice_subrange(data, i + 1, start);
        assert(octets@ =~= tail.subrange(1, 1 + n));
        match small_number(octets) {
            Some(number) => {
                if number < 128 {
                    return Found::Nothing;
                }
                length = number;
            },
            None => {
                return Found::TooLong;
            },
        }
    }
    if data.len() - start < length {
        return Found::Nothing;
    }
    Found::Element { start, end: start + length }
}

/// The contents of the element at the front, if it has that identifier, and what
/// follows it.
pub fn find_inside(data: &[u8], id: u8) -> (r: Option<(&[u8], &[u8])>)
    ensures
        match r {
            Some((contents, rest)) => inside(data@, id) == Some((contents@, rest@)),
            None => inside(data@, id) is None,
        },
{
    proof {
        reveal(inside);
    }
    match find_front(data) {
        Found::Element { start, end } => {
            if data[0] == id {
                let contents = slice_subrange(data, start, end);
                let rest = slice_subrange(data, end, data.len());
                assert(rest@ =~= data@.skip(end as int));
                Some((contents, rest))
            } else {
                None
            }
        },
        _ => None,
    }
}

/// The bytes of each slice.
pub open spec fn bytes_of_each(slices: Seq<&[u8]>) -> Seq<Seq<u8>> {
    slices.map_values(|slice: &[u8]| slice@)
}

/// The complete elements that stand one behind the other, and what follows them.
pub fn find_elements(data: &[u8]) -> (r: (Vec<&[u8]>, &[u8]))
    ensures
        bytes_of_each(r.0@) == elements(data@),
        r.1@ == remainder(data@),
{
    let mut found: Vec<&[u8]> = Vec::new();
    let mut at: usize = 0;
    assert(data@.skip(0) =~= data@);
    loop
        invariant
            at <= data@.len(),
            elements(data@).len() == found@.len() + elements(data@.skip(at as int)).len(),
            forall|i: int|
                0 <= i < found@.len() ==> (#[trigger] found@[i])@ == elements(data@)[i],
            forall|i: int|
                0 <= i < elements(data@.skip(at as int)).len() ==> #[trigger] elements(
                    data@.skip(at as int),
                )[i] == elements(data@)[i + found@.len()],
            remainder(data@) == remainder(data@.skip(at as int)),
        decreases data@.len() - at,
    {
        let left = slice_subrange(data, at, data.len());
        assert(left@ =~= data@.skip(at as int));
        match find_front(left) {
            Found::Element { end, .. } => {
                let next = slice_subrange(left, 0, end);
                let ghost behind = data@.skip(at + end);
                assert(left@.skip(end as int) =~= behind);
                assert(next@ =~= left@.take(left@.len() - behind.len()));
                assert(elements(left@) == seq![next@] + elements(behind));
                assert(elements(left@)[0] == next@);
                assert forall|i: int| 0 <= i < elements(behind).len() implies #[trigger] elements(
                    behind,
                )[i] == elements(data@)[i + found@.len() + 1] by {
                    assert(elements(left@)[i + 1] == elements(behind)[i]);
                }
                found.push(next);
                at = at + end;
            },
            _ => {
                assert(bytes_of_each(found@) =~= elements(data@));
                return (found, left);
            },
        }
    }
}

/// Whether the contents of an integer are those of a number that one byte holds.
pub fn check_byte(contents: &[u8]) -> (r: bool)
    ensures
        r == is_byte(contents@),
{
    if contents.len() == 1 {
        contents[0] < 128
    } else {
        contents.len() == 2 && contents[0] == 0 && contents[1] >= 128
    }
}

/// Whether contents are those of an object identifier.
pub fn check_object_id(contents: &[u8]) -> (r: bool)
    ensures
        r == is_object_id(contents@),
{
    let n: usize = contents.len();
    if n == 0 || contents[n - 1] >= 128 {
        return false;
    }
    let mut arc: u64 = 0;
    for i in 0..n
        invariant
            n == contents@.len(),
            arc == open_arc(contents@.take(i as int)),
            forall|j: int| 0 <= j < i ==> #[trigger] contents@[j] != 128,
            forall|j: int|
                0 <= j < i ==> open_arc(#[trigger] contents@.take(j)) * 128 <= u64::MAX,
    {
        let byte: u8 = contents[i];
        if byte == 128 {
            return false;
        }
        if arc > u64::MAX / 128 {
            assert(open_arc(contents@.take(i as int)) * 128 > u64::MAX);
            return false;
        }
        let ghost before = contents@.take(i as int);
        assert(contents@.take(i + 1).drop_last() =~= before);
        if byte < 128 {
            arc = 0;
        } else {
            arc = arc * 128 + (byte - 128) as u64;
        }
    }
    true
}

/// The most that a number of `k` bytes can be, and one more.
spec fn span(k: nat) -> nat
    decreases k,
{
    if k == 0 {
        1
    } else {
        256 * span((k - 1) as nat)
    }
}

proof fn lemma_few_digits(n: nat, k: nat)
    requires
        n < span(k),
    ensures
        digits(n).len() <= k,
    decreases k,
{
    if n > 0 {
        lemma_few_digits(n / 256, (k - 1) as nat);
    }
}

proof fn lemma_digits(n: nat)
    ensures
        number(digits(n)) == n,
        n > 0 ==> digits(n).len() > 0,
        n <= usize::MAX ==> digits(n).len() <= 8,
    decreases n,
{
    if n > 0 {
        lemma_digits(n / 256);
        assert(digits(n).drop_last() =~= digits(n / 256));
    }
    if n <= usize::MAX {
        reveal_with_fuel(span, 9);
        lemma_few_digits(n, 8);
    }
}

fn digits_of(n: usize) -> (r: Vec<u8>)
    ensures
        r@ == digits(n as nat),
    decreases n,
{
    if n == 0 {
        Vec::new()
    } else {
        let mut out = digits_of(n / 256);
        out.push((n % 256) as u8);
        out
    }
}

/// Adds bytes to others.
pub fn push_bytes(out: &mut Vec<u8>, bytes: &[u8])
    ensures
        final(out)@ == old(out)@ + bytes@,
{
    let ghost before = out@;
    for i in 0..bytes.len()
        invariant
            out@ == before + bytes@.take(i as int),
    {
        out.push(bytes[i]);
        assert(out@ =~= before + bytes@.take(i + 1));
    }
    assert(bytes@.take(bytes@.len() as int) =~= bytes@);
}

/// Adds an element to other bytes.
pub fn push_element(out: &mut Vec<u8>, id: u8, contents: &[u8])
    ensures
        final(out)@ == old(out)@ + element(id, contents@),
{
    let n: usize = contents.len();
    out.push(id);
    if n < 128 {
        out.push(n as u8);
    } else {
        proof {
            lemma_digits(n as nat);
        }
        let digits = digits_of(n);
        out.push(128 + digits.len() as u8);
        push_bytes(out, digits.as_slice());
    }
    push_bytes(out, contents);
    assert(out@ =~= old(out)@ + element(id, contents@));
}

/// What is written as an element is read as one.
pub proof fn an_element_is_found(id: u8, contents: Seq<u8>, rest: Seq<u8>)
    requires
        id % 32 != 31,
        contents.len() <= usize::MAX / 2,
    ensures
        front(element(id, contents) + rest) == (Front::Element { id, contents, rest }),
{
    let n = contents.len();
    let data = element(id, contents) + rest;
    let tail = data.skip(1);
    lemma_digits(n);
    assert(tail =~= written_length(n) + contents + rest);
    if n >= 128 {
        assert(tail.subrange(1, (1 + digits(n).len()) as int) =~= digits(n));
    }
    let k = 1 + written_length(n).len();
    assert(data.subrange(k as int, (k + n) as int) =~= contents);
    assert(data.skip((k + n) as int) =~= rest);
}

/// What is written as an element and stands before others is the first of them.
pub proof fn a_written_element_comes_first(id: u8, contents: Seq<u8>, rest: Seq<u8>)
    requires
        id % 32 != 31,
        contents.len() <= usize::MAX / 2,
    ensures
        elements(element(id, contents) + rest) == seq![element(id, contents)] + elements(rest),
        remainder(element(id, contents) + rest) == remainder(rest),
{
    let data = element(id, contents) + rest;
    an_element_is_found(id, contents, rest);
    assert(data.take(data.len() - rest.len()) =~= element(id, contents));
}

/// Nothing of the data is lost: its elements and what follows them are all of it, in
/// order.
pub proof fn elements_are_all_of_the_data(data: Seq<u8>)
    ensures
        elements(data).flatten() + remainder(data) == data,
    decreases data.len(),
{
    match front(data) {
        Front::Element { rest, .. } => {
            let first = data.take(data.len() - rest.len());
            elements_are_all_of_the_data(rest);
            assert((seq![first] + elements(rest)).drop_first() =~= elements(rest));
            assert((seq![first] + elements(rest)).first() == first);
            assert(elements(data).flatten() == first + elements(rest).flatten());
            assert(rest =~= data.skip(data.len() - rest.len()));
            assert(elements(data).flatten() + remainder(data) =~= first + (elements(
                rest,
            ).flatten() + remainder(rest)));
            assert(first + rest =~= data);
        },
        _ => {
            assert(Seq::<Seq<u8>>::empty().flatten() =~= Seq::<u8>::empty());
            assert(elements(data).flatten() + remainder(data) =~= data);
        },
    }
}

/// A number that one byte holds is written in one way: with a zero before it from 128
/// on.
pub proof fn a_byte_has_one_form(contents: Seq<u8>, n: u8)
    ensures
        is_byte(contents) && number(contents) == n <==> contents == (if n < 128 {
            seq![n]
        } else {
            seq![0u8, n]
        }),
        is_byte(contents) ==> number(contents) < 256,
{
    reveal_with_fuel(number, 3);
    if is_byte(contents) {
        if contents.len() == 1 {
            assert(contents =~= seq![contents[0]]);
        } else {
            assert(contents =~= seq![contents[0], contents[1]]);
        }
    }
}

/// An identifier takes one byte, unless the five low bits of that are all set: it then
/// goes on up to the next byte below 128.
pub proof fn how_long_an_identifier_is(data: Seq<u8>, k: int)
    requires
        0 < k < data.len(),
        data[k] < 128,
        forall|i: int| 0 < i < k ==> #[trigger] data[i] >= 128,
    ensures
        data[0] % 32 != 31 ==> id_len(data) == Some(1nat),
        data[0] % 32 == 31 ==> id_len(data) == Some((k + 1) as nat),
{
    let tail = data.skip(1);
    assert forall|i: int| 0 <= i < k - 1 implies #[trigger] tail[i] >= 128 by {
        assert(data[i + 1] >= 128);
    }
    a_long_identifier_ends(tail, k - 1);
}

proof fn a_long_identifier_ends(data: Seq<u8>, k: int)
    requires
        0 <= k < data.len(),
        data[k] < 128,
        forall|i: int| 0 <= i < k ==> #[trigger] data[i] >= 128,
    ensures
        long_id_len(data) == Some((k + 1) as nat),
    decreases k,
{
    if k > 0 {
        assert(data[0] >= 128);
        let tail = data.skip(1);
        assert forall|i: int| 0 <= i < k - 1 implies #[trigger] tail[i] >= 128 by {
            assert(data[i + 1] >= 128);
        }
        a_long_identifier_ends(tail, k - 1);
    }
}

/// Bytes below 128 are an object identifier, each an arc of its own. What ends within an
/// arc is none, nor is what holds a byte of no use.
pub proof fn what_an_object_id_is(contents: Seq<u8>)
    ensures
        contents.len() > 0 && (forall|i: int|
            0 <= i < contents.len() ==> #[trigger] contents[i] < 128) ==> is_object_id(contents),
        contents.len() == 0 || contents.last() >= 128 || contents.contains(128) ==> !is_object_id(
            contents,
        ),
{
    if contents.len() > 0 && (forall|i: int|
        0 <= i < contents.len() ==> #[trigger] contents[i] < 128) {
        assert(contents[contents.len() - 1] < 128);
        assert forall|i: int| 0 <= i < contents.len() implies open_arc(#[trigger] contents.take(i))
            * 128 <= u64::MAX by {
            if i > 0 {
                assert(contents.take(i).last() == contents[i - 1]);
            }
            assert(open_arc(contents.take(i)) == 0);
        }
    }
}

/// What is written as an element begins with its contents, and is little longer.
pub proof fn an_element_holds_its_contents(id: u8, contents: Seq<u8>, rest: Seq<u8>)
    requires
        id % 32 != 31,
        contents.len() <= usize::MAX / 2,
    ensures
        inside(element(id, contents) + rest, id) == Some((contents, rest)),
        element(id, contents).len() <= contents.len() + 10,
{
    reveal(inside);
    an_element_is_found(id, contents, rest);
    lemma_digits(contents.len());
}

/// Contents, and what follows them, are part of the data.
pub proof fn contents_are_shorter(data: Seq<u8>, id: u8)
    ensures
        inside(data, id) matches Some((contents, rest)) ==> contents.len() + rest.len()
            < data.len(),
{
    reveal(inside);
}

} // verus!
