//! Text helpers with exact contracts over sequences of characters.
use vstd::prelude::*;

verus! {

/// `String::push` of the standard library: appends one character at the end.
pub assume_specification[ String::push ](s: &mut String, c: char)
    ensures
        final(s)@ == old(s)@.push(c),
;

/// What `str::to_uppercase` of the standard library makes of a text.
pub uninterp spec fn unicode_uppercase(text: Seq<char>) -> Seq<char>;

/// Upper-cases a text with `str::to_uppercase` of the standard library.
///
/// Trusted: the result is a function of the text alone, and a text of ASCII
/// characters is mapped letter by letter, as `to_ascii_uppercase` does.
#[verifier::external_body]
pub(crate) fn to_uppercase(text: &str) -> (r: String)
    ensures
        r@ == unicode_uppercase(text@),
        all_ascii(text@) ==> r@ == ascii_uppercase(text@),
{
    text.to_uppercase()
}

// ------------------------------------------------------------------ characters

pub open spec fn all_ascii(text: Seq<char>) -> bool {
    forall|i: int| 0 <= i < text.len() ==> (#[trigger] text[i] as int) < 0x80
}

/// `a` to `z` become `A` to `Z`; every other character is left alone.
pub open spec fn upper_char(c: char) -> char {
    if 'a' <= c <= 'z' {
        ((c as u8) - 32) as u8 as char
    } else {
        c
    }
}

/// `A` to `Z` become `a` to `z`; every other character is left alone.
pub open spec fn lower_char(c: char) -> char {
    if 'A' <= c <= 'Z' {
        ((c as u8) + 32) as u8 as char
    } else {
        c
    }
}

pub open spec fn ascii_uppercase(text: Seq<char>) -> Seq<char> {
    Seq::new(text.len(), |i: int| upper_char(text[i]))
}

pub open spec fn ascii_lowercase(text: Seq<char>) -> Seq<char> {
    Seq::new(text.len(), |i: int| lower_char(text[i]))
}

/// Equality of two texts that does not tell ASCII case apart.
pub open spec fn same_ignoring_case(a: Seq<char>, b: Seq<char>) -> bool {
    ascii_lowercase(a) == ascii_lowercase(b)
}

pub fn to_upper_char(c: char) -> (r: char)
    ensures
        r == upper_char(c),
{
    if 'a' <= c && c <= 'z' {
        ((c as u8) - 32) as char
    } else {
        c
    }
}

pub fn to_lower_char(c: char) -> (r: char)
    ensures
        r == lower_char(c),
{
    if 'A' <= c && c <= 'Z' {
        ((c as u8) + 32) as char
    } else {
        c
    }
}

/// Unicode's `White_Space` property.
pub open spec fn is_white_space(c: char) -> bool {
    ||| 0x09 <= c as int <= 0x0d
    ||| c as int == 0x20
    ||| c as int == 0x85
    ||| c as int == 0xa0
    ||| c as int == 0x1680
    ||| 0x2000 <= c as int <= 0x200a
    ||| c as int == 0x2028
    ||| c as int == 0x2029
    ||| c as int == 0x202f
    ||| c as int == 0x205f
    ||| c as int == 0x3000
}

/// Blanks, tabs and ends of lines are white space, and so are the spaces of other
/// widths; nothing that can be seen in ASCII is.
pub proof fn what_is_white_space(c: char)
    ensures
        c == ' ' || c == '\t' || c == '\n' || c == '\r' || c as int == 11 || c as int == 12
            ==> is_white_space(c),
        (c as int) < 128 && is_white_space(c) ==> c == ' ' || 9 <= c as int <= 13,
        c as int == 0xa0 || c as int == 0x3000 || 0x2000 <= c as int <= 0x200a ==> is_white_space(
            c,
        ),
        33 <= c as int <= 126 ==> !is_white_space(c),
{
}

pub fn white_space(c: char) -> (r: bool)
    ensures
        r == is_white_space(c),
{
    let n: u32 = c as u32;
    (0x09 <= n && n <= 0x0d) || n == 0x20 || n == 0x85 || n == 0xa0 || n == 0x1680 || (0x2000 <= n
        && n <= 0x200a) || n == 0x2028 || n == 0x2029 || n == 0x202f || n == 0x205f || n == 0x3000
}

pub open spec fn is_hex_digit(c: char) -> bool {
    ||| '0' <= c <= '9'
    ||| 'a' <= c <= 'f'
    ||| 'A' <= c <= 'F'
}

/// The value of a hexadecimal digit.
pub open spec fn hex_value(c: char) -> int {
    if '0' <= c <= '9' {
        c as int - '0' as int
    } else if 'a' <= c <= 'f' {
        c as int - 'a' as int + 10
    } else {
        c as int - 'A' as int + 10
    }
}

pub fn hex_digit(c: char) -> (r: bool)
    ensures
        r == is_hex_digit(c),
{
    ('0' <= c && c <= '9') || ('a' <= c && c <= 'f') || ('A' <= c && c <= 'F')
}

pub fn hex_digit_value(c: char) -> (r: u8)
    requires
        is_hex_digit(c),
    ensures
        r == hex_value(c),
        r < 16,
{
    if '0' <= c && c <= '9' {
        (c as u8) - 48
    } else if 'a' <= c && c <= 'f' {
        (c as u8) - 97 + 10
    } else {
        (c as u8) - 65 + 10
    }
}

// ------------------------------------------------------- texts and their characters

pub fn chars_of(text: &str) -> (r: Vec<char>)
    ensures
        r@ == text@,
{
    let mut out: Vec<char> = Vec::new();
    for c in it: text.chars()
        invariant
            out@ == text@.take(it.index() as int),
            it.seq() == text@,
    {
        out.push(c);
    }
    assert(text@.take(text@.len() as int) == text@);
    out
}

pub fn string_of(chars: &[char]) -> (r: String)
    ensures
        r@ == chars@,
{
    let mut out = String::new();
    for i in 0..chars.len()
        invariant
            out@ == chars@.take(i as int),
    {
        out.push(chars[i]);
        assert(chars@.take(i + 1) == chars@.take(i as int).push(chars@[i as int]));
    }
    assert(chars@.take(chars@.len() as int) == chars@);
    out
}

pub fn str_eq(a: &str, b: &str) -> (r: bool)
    ensures
        r == (a@ == b@),
{
    let x = chars_of(a);
    let y = chars_of(b);
    if x.len() != y.len() {
        return false;
    }
    for i in 0..x.len()
        invariant
            x.len() == y.len(),
            x@ == a@,
            y@ == b@,
            forall|j: int| 0 <= j < i ==> a@[j] == b@[j],
    {
        if x[i] != y[i] {
            assert(a@[i as int] != b@[i as int]);
            return false;
        }
    }
    assert(a@ == b@);
    true
}

pub fn to_ascii_lowercase(text: &str) -> (r: String)
    ensures
        r@ == ascii_lowercase(text@),
{
    let chars = chars_of(text);
    let mut out = String::new();
    for i in 0..chars.len()
        invariant
            chars@ == text@,
            out@ == ascii_lowercase(text@.take(i as int)),
    {
        out.push(to_lower_char(chars[i]));
        assert(out@ =~= ascii_lowercase(text@.take(i + 1)));
    }
    assert(text@.take(text@.len() as int) == text@);
    out
}

pub fn to_ascii_uppercase(text: &str) -> (r: String)
    ensures
        r@ == ascii_uppercase(text@),
{
    let chars = chars_of(text);
    let mut out = String::new();
    for i in 0..chars.len()
        invariant
            chars@ == text@,
            out@ == ascii_uppercase(text@.take(i as int)),
    {
        out.push(to_upper_char(chars[i]));
        assert(out@ =~= ascii_uppercase(text@.take(i + 1)));
    }
    assert(text@.take(text@.len() as int) == text@);
    out
}

pub fn eq_ignore_ascii_case(a: &str, b: &str) -> (r: bool)
    ensures
        r == same_ignoring_case(a@, b@),
{
    let x = to_ascii_lowercase(a);
    let y = to_ascii_lowercase(b);
    x == y
}

/// The text without the occurrences of `c`.
pub open spec fn without_char(text: Seq<char>, c: char) -> Seq<char>
    decreases text.len(),
{
    if text.len() == 0 {
        text
    } else if text.last() == c {
        without_char(text.drop_last(), c)
    } else {
        without_char(text.drop_last(), c).push(text.last())
    }
}

/// Only that character is taken out of a text, wherever it stands, and the rest keeps
/// its order.
pub proof fn only_that_character_is_taken(text: Seq<char>, c: char, next: char)
    ensures
        without_char(Seq::<char>::empty(), c).len() == 0,
        next == c ==> without_char(text.push(next), c) == without_char(text, c),
        next != c ==> without_char(text.push(next), c) == without_char(text, c).push(next),
{
    assert(text.push(next).drop_last() =~= text);
}

/// How many bytes a character takes in UTF-8.
pub open spec fn utf8_width(c: char) -> nat {
    if (c as int) < 0x80 {
        1
    } else if (c as int) < 0x800 {
        2
    } else if (c as int) < 0x10000 {
        3
    } else {
        4
    }
}

/// A character takes as many bytes as its number needs: seven bits fit one, eleven fit
/// two, sixteen fit three, and all fit four.
pub proof fn how_wide_a_character_is(c: char)
    ensures
        1 <= utf8_width(c) <= 4,
        utf8_width(c) == 1 <==> c as int <= 127,
        utf8_width(c) <= 2 <==> c as int <= 2047,
        utf8_width(c) <= 3 <==> c as int <= 65535,
{
}

/// The longest end of a text that takes at most `bytes` bytes in UTF-8.
pub open spec fn utf8_tail(text: Seq<char>, bytes: nat) -> Seq<char>
    decreases text.len(),
{
    if text.len() == 0 || utf8_width(text.last()) > bytes {
        Seq::<char>::empty()
    } else {
        utf8_tail(text.drop_last(), (bytes - utf8_width(text.last())) as nat).push(text.last())
    }
}

pub fn remove_char(text: &str, c: char) -> (r: Vec<char>)
    ensures
        r@ == without_char(text@, c),
{
    let chars = chars_of(text);
    let mut out: Vec<char> = Vec::new();
    for i in 0..chars.len()
        invariant
            chars@ == text@,
            out@ == without_char(text@.take(i as int), c),
    {
        assert(text@.take(i + 1).drop_last() =~= text@.take(i as int));
        if chars[i] != c {
            out.push(chars[i]);
        }
    }
    assert(text@.take(text@.len() as int) =~= text@);
    out
}

fn width_in_utf8(c: char) -> (r: usize)
    ensures
        r == utf8_width(c),
        1 <= r <= 4,
{
    let n: u32 = c as u32;
    if n < 0x80 {
        1
    } else if n < 0x800 {
        2
    } else if n < 0x10000 {
        3
    } else {
        4
    }
}

/// Where the longest end of `text` that takes at most `bytes` bytes starts.
pub fn utf8_tail_start(text: &[char], bytes: usize) -> (r: usize)
    ensures
        r <= text@.len(),
        text@.skip(r as int) == utf8_tail(text@, bytes as nat),
{
    let mut at: usize = text.len();
    let mut left: usize = bytes;
    assert(text@.take(at as int) =~= text@);
    assert(utf8_tail(text@, bytes as nat) =~= utf8_tail(text@.take(at as int), left as nat)
        + text@.skip(at as int));
    while at > 0 && width_in_utf8(text[at - 1]) <= left
        invariant
            at <= text@.len(),
            utf8_tail(text@, bytes as nat) == utf8_tail(text@.take(at as int), left as nat)
                + text@.skip(at as int),
        decreases at,
    {
        let ghost head = text@.take(at as int);
        assert(head.drop_last() =~= text@.take(at - 1));
        left = left - width_in_utf8(text[at - 1]);
        at = at - 1;
        assert(utf8_tail(text@, bytes as nat) =~= utf8_tail(text@.take(at as int), left as nat)
            + text@.skip(at as int));
    }
    assert(utf8_tail(text@.take(at as int), left as nat) =~= Seq::<char>::empty());
    assert(text@.skip(at as int) =~= utf8_tail(text@, bytes as nat));
    at
}

/// Hexadecimal octets of two digits each, with colons between them.
pub open spec fn is_octets(text: Seq<char>, n: nat) -> bool {
    &&& text.len() == 3 * n - 1
    &&& forall|i: int|
        0 <= i < text.len() ==> if i % 3 == 2 {
            #[trigger] text[i] == ':'
        } else {
            is_hex_digit(text[i])
        }
}

/// One octet is two digits, and one more takes a colon and two digits more; each octet
/// may be any.
pub proof fn how_octets_are_written(text: Seq<char>, n: nat, high: char, low: char)
    requires
        n >= 1,
    ensures
        is_octets(seq![high, low], 1) <==> is_hex_digit(high) && is_hex_digit(low),
        is_octets(text + seq![':', high, low], n + 1) <==> is_octets(text, n) && is_hex_digit(high)
            && is_hex_digit(low),
        is_octets(text, n) ==> text.len() + 1 == 3 * n,
        is_octets(text, n) ==> forall|k: int|
            0 <= k < text.len() ==> (#[trigger] text[k] == ':' <==> k % 3 == 2),
{
    let one = seq![high, low];
    let longer = text + seq![':', high, low];
    if is_hex_digit(high) && is_hex_digit(low) {
        assert(is_octets(one, 1));
    }
    if is_octets(one, 1) {
        assert(is_hex_digit(one[0]) && is_hex_digit(one[1]));
    }
    let len = text.len() as int;
    if is_octets(longer, n + 1) {
        assert(is_hex_digit(longer[len + 1]) && is_hex_digit(longer[len + 2]));
        assert forall|i: int| 0 <= i < text.len() implies if i % 3 == 2 {
            #[trigger] text[i] == ':'
        } else {
            is_hex_digit(text[i])
        } by {
            assert(longer[i] == text[i]);
        }
    }
    if is_octets(text, n) && is_hex_digit(high) && is_hex_digit(low) {
        assert(longer[len] == ':');
        assert(longer[len + 1] == high);
        assert(longer[len + 2] == low);
        assert forall|i: int| 0 <= i < longer.len() implies if i % 3 == 2 {
            #[trigger] longer[i] == ':'
        } else {
            is_hex_digit(longer[i])
        } by {
            if i < text.len() {
                assert(longer[i] == text[i]);
            }
        }
    }
}

pub fn octets(text: &[char], n: usize) -> (r: bool)
    requires
        1 <= n <= 100,
    ensures
        r == is_octets(text@, n as nat),
{
    if text.len() != 3 * n - 1 {
        return false;
    }
    for i in 0..text.len()
        invariant
            forall|j: int|
                0 <= j < i ==> if j % 3 == 2 {
                    #[trigger] text@[j] == ':'
                } else {
                    is_hex_digit(text@[j])
                },
    {
        if i % 3 == 2 {
            if text[i] != ':' {
                return false;
            }
        } else if !hex_digit(text[i]) {
            return false;
        }
    }
    true
}

// ------------------------------------------------------------------ trimming

/// The text without its leading white space.
pub open spec fn trim_start(text: Seq<char>) -> Seq<char>
    decreases text.len(),
{
    if text.len() > 0 && is_white_space(text[0]) {
        trim_start(text.skip(1))
    } else {
        text
    }
}

/// The text without those last characters for which `drop` holds.
pub open spec fn trim_end_if(text: Seq<char>, drop: spec_fn(char) -> bool) -> Seq<char>
    decreases text.len(),
{
    if text.len() > 0 && drop(text.last()) {
        trim_end_if(text.drop_last(), drop)
    } else {
        text
    }
}

/// The text without leading and trailing white space.
pub open spec fn trimmed(text: Seq<char>) -> Seq<char> {
    trim_end_if(trim_start(text), |c: char| is_white_space(c))
}

/// `text` without leading and trailing white space.
pub fn trim(text: &[char]) -> (r: Vec<char>)
    ensures
        r@ == trimmed(text@),
{
    let mut from: usize = 0;
    assert(text@.skip(0) == text@);
    while from < text.len() && white_space(text[from])
        invariant
            from <= text.len(),
            trim_start(text@) == trim_start(text@.skip(from as int)),
        decreases text.len() - from,
    {
        assert(text@.skip(from as int).skip(1) == text@.skip(from + 1));
        from = from + 1;
    }
    let ghost rest = text@.skip(from as int);
    assert(trim_start(text@) == rest);
    let ghost ws = |c: char| is_white_space(c);
    let mut to: usize = text.len();
    assert(rest.take(to - from) == rest);
    while from < to && white_space(text[to - 1])
        invariant
            from <= to <= text.len(),
            rest == text@.skip(from as int),
            ws == (|c: char| is_white_space(c)),
            trim_end_if(rest, ws) == trim_end_if(rest.take(to - from), ws),
        decreases to,
    {
        assert(rest.take(to - from).drop_last() == rest.take(to - from - 1));
        to = to - 1;
    }
    let mut out: Vec<char> = Vec::new();
    for i in from..to
        invariant
            from <= to <= text.len(),
            out@ == text@.subrange(from as int, i as int),
    {
        out.push(text[i]);
        assert(text@.subrange(from as int, i + 1) == text@.subrange(from as int, i as int).push(
            text@[i as int],
        ));
    }
    assert(rest.take(to - from) == text@.subrange(from as int, to as int));
    out
}

/// `text` without the slashes at its end.
pub fn trim_end_slashes(text: &str) -> (r: String)
    ensures
        r@ == trim_end_if(text@, |c: char| c == '/'),
{
    let chars = chars_of(text);
    let ghost slash = |c: char| c == '/';
    let mut to: usize = chars.len();
    assert(text@.take(to as int) == text@);
    while 0 < to && chars[to - 1] == '/'
        invariant
            to <= chars.len(),
            chars@ == text@,
            slash == (|c: char| c == '/'),
            trim_end_if(text@, slash) == trim_end_if(text@.take(to as int), slash),
        decreases to,
    {
        assert(text@.take(to as int).drop_last() == text@.take(to - 1));
        to = to - 1;
    }
    let mut out = String::new();
    for i in 0..to
        invariant
            to <= chars.len(),
            chars@ == text@,
            out@ == text@.take(i as int),
    {
        out.push(chars[i]);
        assert(text@.take(i + 1) == text@.take(i as int).push(text@[i as int]));
    }
    out
}

// ---------------------------------------------------------- splitting and joining

/// The pieces of a text between the occurrences of `sep`; never empty.
pub open spec fn split_on(text: Seq<char>, sep: char) -> Seq<Seq<char>>
    decreases text.len(),
{
    if text.len() == 0 {
        seq![Seq::<char>::empty()]
    } else {
        let before = split_on(text.drop_last(), sep);
        if text.last() == sep {
            before.push(Seq::<char>::empty())
        } else {
            before.update(before.len() - 1, before.last().push(text.last()))
        }
    }
}

/// The pieces one behind the other, with `sep` between them.
pub open spec fn join_with(pieces: Seq<Seq<char>>, sep: Seq<char>) -> Seq<char>
    decreases pieces.len(),
{
    if pieces.len() == 0 {
        Seq::<char>::empty()
    } else if pieces.len() == 1 {
        pieces[0]
    } else {
        join_with(pieces.drop_last(), sep) + sep + pieces.last()
    }
}

/// Splitting is exact: the pieces joined by the separator are the text again,
/// and no piece holds the separator.
pub proof fn split_on_is_exact(text: Seq<char>, sep: char)
    ensures
        split_on(text, sep).len() >= 1,
        join_with(split_on(text, sep), seq![sep]) == text,
        forall|i: int|
            0 <= i < split_on(text, sep).len() ==> !(#[trigger] split_on(text, sep)[i]).contains(
                sep,
            ),
    decreases text.len(),
{
    if text.len() == 0 {
        assert(split_on(text, sep)[0] == text);
    } else {
        let head = text.drop_last();
        split_on_is_exact(head, sep);
        let before = split_on(head, sep);
        let after = split_on(text, sep);
        if text.last() == sep {
            assert(after.drop_last() == before);
            assert(join_with(after, seq![sep]) == head + seq![sep] + Seq::<char>::empty());
            assert(text == head + seq![sep] + Seq::<char>::empty());
        } else {
            let last = before.last().push(text.last());
            assert(after.drop_last() == before.drop_last());
            if before.len() == 1 {
                assert(after[0] == before[0].push(text.last()));
                assert(text == head.push(text.last()));
            } else {
                let front = join_with(before.drop_last(), seq![sep]);
                assert(head == front + seq![sep] + before.last());
                assert(text == head.push(text.last()));
                assert(text =~= front + seq![sep] + last);
                assert(after.last() == last);
            }
            assert forall|i: int| 0 <= i < after.len() implies !(#[trigger] after[i]).contains(
                sep,
            ) by {
                if i == after.len() - 1 {
                    if last.contains(sep) {
                        let k = choose|k: int| 0 <= k < last.len() && last[k] == sep;
                        assert(k < last.len() - 1);
                        assert(before.last()[k] == sep);
                        assert(before[before.len() - 1].contains(sep));
                    }
                } else {
                    assert(after[i] == before[i]);
                }
            }
        }
    }
}

/// The pieces of `text` between the occurrences of `sep`.
pub fn split(text: &[char], sep: char) -> (r: Vec<Vec<char>>)
    ensures
        r@.len() == split_on(text@, sep).len(),
        forall|i: int| 0 <= i < r@.len() ==> (#[trigger] r@[i])@ == split_on(text@, sep)[i],
{
    let mut done: Vec<Vec<char>> = Vec::new();
    let mut piece: Vec<char> = Vec::new();
    for i in 0..text.len()
        invariant
            split_on(text@.take(i as int), sep).len() == done@.len() + 1,
            forall|j: int|
                0 <= j < done@.len() ==> (#[trigger] done@[j])@ == split_on(
                    text@.take(i as int),
                    sep,
                )[j],
            piece@ == split_on(text@.take(i as int), sep).last(),
    {
        assert(text@.take(i + 1).drop_last() == text@.take(i as int));
        if text[i] == sep {
            done.push(piece);
            piece = Vec::new();
        } else {
            piece.push(text[i]);
        }
    }
    assert(text@.take(text@.len() as int) == text@);
    done.push(piece);
    done
}

/// Whether `text` holds `c`, and where it first stands.
pub fn find_char(text: &[char], c: char) -> (r: Option<usize>)
    ensures
        match r {
            Some(i) => i < text@.len() && index_of_char(text@, c) == Some(i as int),
            None => index_of_char(text@, c) is None,
        },
{
    for i in 0..text.len()
        invariant
            forall|j: int| 0 <= j < i ==> text@[j] != c,
    {
        if text[i] == c {
            proof {
                index_of_char_is(text@, c, i as int);
            }
            return Some(i);
        }
    }
    proof {
        no_index_of_char(text@, c);
    }
    None
}

/// Where `c` first stands in a text.
pub open spec fn index_of_char(text: Seq<char>, c: char) -> Option<int>
    decreases text.len(),
{
    if text.len() == 0 {
        None
    } else {
        match index_of_char(text.drop_last(), c) {
            Some(i) => Some(i),
            None => if text.last() == c {
                Some(text.len() - 1)
            } else {
                None
            },
        }
    }
}

/// The first place of a character is found.
pub proof fn index_of_char_is(text: Seq<char>, c: char, i: int)
    requires
        0 <= i < text.len(),
        text[i] == c,
        !text.take(i).contains(c),
    ensures
        index_of_char(text, c) == Some(i),
    decreases text.len(),
{
    if i == text.len() - 1 {
        assert(text.take(i) =~= text.drop_last());
        no_index_of_char(text.drop_last(), c);
    } else {
        assert(text.drop_last().take(i) =~= text.take(i));
        index_of_char_is(text.drop_last(), c, i);
    }
}

/// A character that does not occur has no place.
pub proof fn no_index_of_char(text: Seq<char>, c: char)
    requires
        !text.contains(c),
    ensures
        index_of_char(text, c) is None,
    decreases text.len(),
{
    if text.len() > 0 {
        assert(text[text.len() - 1] != c);
        assert forall|k: int| 0 <= k < text.drop_last().len() implies text.drop_last()[k] != c by {
            assert(text[k] != c);
        }
        no_index_of_char(text.drop_last(), c);
    }
}

/// The characters from `from` up to, but without, `to`.
pub fn subrange(text: &[char], from: usize, to: usize) -> (r: Vec<char>)
    requires
        from <= to <= text@.len(),
    ensures
        r@ == text@.subrange(from as int, to as int),
{
    let mut out: Vec<char> = Vec::new();
    for i in from..to
        invariant
            from <= to <= text@.len(),
            out@ == text@.subrange(from as int, i as int),
    {
        out.push(text[i]);
        assert(text@.subrange(from as int, i + 1) == text@.subrange(from as int, i as int).push(
            text@[i as int],
        ));
    }
    out
}

/// Appends `more` to `out`.
pub fn append_chars(out: &mut String, more: &[char])
    ensures
        final(out)@ == old(out)@ + more@,
{
    for i in 0..more.len()
        invariant
            out@ == old(out)@ + more@.take(i as int),
    {
        out.push(more[i]);
        assert(more@.take(i + 1) == more@.take(i as int).push(more@[i as int]));
    }
    assert(more@.take(more@.len() as int) == more@);
}

/// Appends the text `more` to `out`.
pub fn append_str(out: &mut String, more: &str)
    ensures
        final(out)@ == old(out)@ + more@,
{
    let chars = chars_of(more);
    append_chars(out, chars.as_slice());
}

// ----------------------------------------------------------------------- numbers

/// The decimal digit `d`.
pub open spec fn digit_char(d: int) -> char {
    (48 + d) as u8 as char
}

/// The decimal rendering of `n`, without leading zeros.
pub open spec fn decimal(n: nat) -> Seq<char>
    decreases n,
{
    if n < 10 {
        seq![digit_char(n as int)]
    } else {
        decimal(n / 10).push(digit_char((n % 10) as int))
    }
}

/// The decimal rendering of `n`, with a minus sign before negative numbers.
pub open spec fn signed_decimal(n: int) -> Seq<char> {
    if n < 0 {
        seq!['-'] + decimal((-n) as nat)
    } else {
        decimal(n as nat)
    }
}

/// Appends `n` in decimal to `out`.
pub fn append_signed(out: &mut String, n: i64)
    ensures
        final(out)@ == old(out)@ + signed_decimal(n as int),
{
    if n < 0 {
        out.push('-');
        append_decimal(out, (-(n + 1)) as u64 + 1);
        assert(out@ =~= old(out)@ + signed_decimal(n as int));
    } else {
        append_decimal(out, n as u64);
    }
}

/// Appends `n` in decimal to `out`.
pub fn append_decimal(out: &mut String, n: u64)
    ensures
        final(out)@ == old(out)@ + decimal(n as nat),
    decreases n,
{
    if n >= 10 {
        append_decimal(out, n / 10);
    }
    let d: u8 = (n % 10) as u8;
    out.push((48 + d) as char);
    assert(out@ =~= old(out)@ + decimal(n as nat));
}

// -------------------------------------------------------------------------- laws

/// Upper and lower case are those of the twenty-six letters: each is 32 places from
/// the other, and no other character has one.
pub proof fn letters_have_two_cases(c: char)
    ensures
        'a' <= c <= 'z' ==> upper_char(c) as int == c as int - 32 && lower_char(c) == c,
        'A' <= c <= 'Z' ==> lower_char(c) as int == c as int + 32 && upper_char(c) == c,
        !('a' <= c <= 'z') && !('A' <= c <= 'Z') ==> upper_char(c) == c && lower_char(c) == c,
        lower_char(upper_char(c)) == lower_char(c),
        upper_char(lower_char(c)) == upper_char(c),
{
}

/// A text keeps its length and its characters but for their case, and two texts are
/// the same ignoring case exactly if each of their characters is.
pub proof fn only_the_case_of_a_text_changes(a: Seq<char>, b: Seq<char>)
    ensures
        ascii_uppercase(a).len() == a.len(),
        ascii_lowercase(a).len() == a.len(),
        forall|i: int| 0 <= i < a.len() ==> #[trigger] ascii_uppercase(a)[i] == upper_char(a[i]),
        forall|i: int| 0 <= i < a.len() ==> #[trigger] ascii_lowercase(a)[i] == lower_char(a[i]),
        same_ignoring_case(a, ascii_uppercase(a)),
        same_ignoring_case(a, b) <==> a.len() == b.len() && forall|i: int|
            0 <= i < a.len() ==> lower_char(#[trigger] a[i]) == lower_char(b[i]),
{
    assert forall|i: int| 0 <= i < a.len() implies #[trigger] ascii_lowercase(
        ascii_uppercase(a),
    )[i] == ascii_lowercase(a)[i] by {
        letters_have_two_cases(a[i]);
    }
    assert(ascii_lowercase(ascii_uppercase(a)) =~= ascii_lowercase(a));
    if same_ignoring_case(a, b) {
        assert(ascii_lowercase(a).len() == ascii_lowercase(b).len());
        assert forall|i: int| 0 <= i < a.len() implies lower_char(#[trigger] a[i]) == lower_char(
            b[i],
        ) by {
            assert(ascii_lowercase(a)[i] == ascii_lowercase(b)[i]);
        }
    }
    if a.len() == b.len() && forall|i: int|
        0 <= i < a.len() ==> lower_char(#[trigger] a[i]) == lower_char(b[i]) {
        assert(ascii_lowercase(a) =~= ascii_lowercase(b));
    }
}

/// A hexadecimal digit is one of sixteen, in either case, and stands for its place
/// among them.
pub proof fn what_a_hex_digit_stands_for(c: char)
    ensures
        is_hex_digit(c) ==> 0 <= hex_value(c) < 16,
        '0' <= c <= '9' ==> is_hex_digit(c) && hex_value(c) == c as int - 48,
        'a' <= c <= 'f' ==> is_hex_digit(c) && hex_value(c) == c as int - 87,
        'A' <= c <= 'F' ==> is_hex_digit(c) && hex_value(c) == c as int - 55,
        is_hex_digit(upper_char(c)) == is_hex_digit(c),
        is_hex_digit(c) ==> hex_value(upper_char(c)) == hex_value(c),
        is_hex_digit(c) ==> '0' <= c <= '9' || 'a' <= c <= 'f' || 'A' <= c <= 'F',
{
}

/// Trimming takes white space off both ends, all of it, and nothing else: what is
/// left stands in the text between two stretches of white space.
pub proof fn trimming_takes_white_space(text: Seq<char>) -> (place: (int, int))
    ensures
        0 <= place.0 <= place.1 <= text.len(),
        trimmed(text) == text.subrange(place.0, place.1),
        forall|i: int| 0 <= i < place.0 ==> is_white_space(#[trigger] text[i]),
        forall|i: int| place.1 <= i < text.len() ==> is_white_space(#[trigger] text[i]),
        trimmed(text).len() > 0 ==> !is_white_space(trimmed(text)[0]) && !is_white_space(
            trimmed(text).last(),
        ),
{
    let from = trim_start_takes(text);
    let rest = trim_start(text);
    let drop = |c: char| is_white_space(c);
    let kept = trim_end_takes(rest, drop);
    assert(trimmed(text) =~= text.subrange(from, from + kept));
    assert forall|i: int| from + kept <= i < text.len() implies is_white_space(
        #[trigger] text[i],
    ) by {
        assert(drop(rest[i - from]));
    }
    if trimmed(text).len() > 0 {
        assert(trimmed(text)[0] == rest[0]);
        assert(!drop(trimmed(text).last()));
    }
    (from, from + kept)
}

proof fn trim_start_takes(text: Seq<char>) -> (from: int)
    ensures
        0 <= from <= text.len(),
        trim_start(text) == text.skip(from),
        forall|i: int| 0 <= i < from ==> is_white_space(#[trigger] text[i]),
        trim_start(text).len() > 0 ==> !is_white_space(trim_start(text)[0]),
    decreases text.len(),
{
    if text.len() > 0 && is_white_space(text[0]) {
        let from = trim_start_takes(text.skip(1));
        assert(text.skip(1).skip(from) =~= text.skip(from + 1));
        assert forall|i: int| 0 <= i < from + 1 implies is_white_space(#[trigger] text[i]) by {
            if i > 0 {
                assert(text.skip(1)[i - 1] == text[i]);
            }
        }
        from + 1
    } else {
        assert(text.skip(0) =~= text);
        0
    }
}

proof fn trim_end_takes(text: Seq<char>, drop: spec_fn(char) -> bool) -> (kept: int)
    ensures
        0 <= kept <= text.len(),
        trim_end_if(text, drop) == text.take(kept),
        forall|i: int| kept <= i < text.len() ==> drop(#[trigger] text[i]),
        kept > 0 ==> !drop(text[kept - 1]),
    decreases text.len(),
{
    if text.len() > 0 && drop(text.last()) {
        let kept = trim_end_takes(text.drop_last(), drop);
        assert(text.drop_last().take(kept) =~= text.take(kept));
        assert forall|i: int| kept <= i < text.len() implies drop(#[trigger] text[i]) by {
            if i < text.len() - 1 {
                assert(text.drop_last()[i] == text[i]);
            }
        }
        kept
    } else {
        assert(text.take(text.len() as int) =~= text);
        text.len() as int
    }
}

/// A number is written digit by digit: one more digit behind it is ten times the
/// number and that digit, and no number but zero begins with a zero.
pub proof fn a_number_is_its_digits(n: nat, d: nat)
    requires
        d < 10,
    ensures
        decimal(d) == seq![digit_char(d as int)],
        digit_char(d as int) as int == 48 + d,
        n > 0 ==> decimal(10 * n + d) == decimal(n).push(digit_char(d as int)),
        n > 0 ==> decimal(n)[0] != '0',
        signed_decimal(n as int) == decimal(n),
        n > 0 ==> signed_decimal(-n) == seq!['-'] + decimal(n),
    decreases n,
{
    if n > 0 {
        assert((10 * n + d) / 10 == n && (10 * n + d) % 10 == d);
    }
    if n >= 10 {
        a_number_is_its_digits(n / 10, 0);
        assert(decimal(n)[0] == decimal(n / 10)[0]) by {
            first_digit_stays(n);
        }
    }
}

proof fn first_digit_stays(n: nat)
    ensures
        decimal(n).len() > 0,
    decreases n,
{
    if n >= 10 {
        first_digit_stays(n / 10);
    }
}

} // verus!
