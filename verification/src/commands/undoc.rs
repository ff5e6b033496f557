//! Sending frames and shortcuts by hand.
use vstd::prelude::*;

use crate::ble::bytes;
use crate::ble::bytes::Base64HexBytes;
use crate::ble::frame;
use crate::text;
use crate::text::{append_str, chars_of, eq_ignore_ascii_case, hex_digit, hex_digit_value, str_eq};
use crate::undoc_api::{DeviceEntry, ParsedOneClick};

verus! {

/// How long a device is given to answer before it is asked outright, in seconds.
pub const ANSWER_DELAY_SECS: u64 = 2;

/// How long the answer is waited for where nothing else was asked for, in
/// seconds.
pub const DEFAULT_WAIT_SECS: u64 = 10;

/// The command, with what it was given.
#[derive(Debug)]
pub struct UndocCommand {
    pub cmd: SubCommand,
}

#[derive(Debug)]
pub enum SubCommand {
    DumpOneClick,
    ShowOneClick,
    OneClick { name: String },
    /// Send raw 20-byte frames to a device over the AWS IoT `ptReal` channel,
    /// then ask for a status so the effect can be read back.
    ///
    /// A protocol bench: the same frames travel over Bluetooth, so this is the
    /// safe way to try an unverified one — no radio, no connection slot, and
    /// the reply arrives on the account topic either way.
    ///
    /// Frames are hex, with or without separators, and are padded and
    /// checksummed for you.
    PtReal {
        /// Device name or id, as Govee's account metadata spells it.
        device: String,
        /// Seconds to wait for the device to answer before exiting.
        wait: u64,
        /// One or more frames, in hex.
        frames: Vec<String>,
    },
}

/// The hexadecimal digits of a text.
pub open spec fn hex_digits(text: Seq<char>) -> Seq<char>
    decreases text.len(),
{
    if text.len() == 0 {
        text
    } else if text::is_hex_digit(text.last()) {
        hex_digits(text.drop_last()).push(text.last())
    } else {
        hex_digits(text.drop_last())
    }
}

/// The bytes that pairs of digits stand for.
pub open spec fn paired(digits: Seq<char>) -> Seq<u8> {
    Seq::new(
        digits.len() / 2,
        |i: int| (16 * text::hex_value(digits[2 * i]) + text::hex_value(digits[2 * i + 1])) as u8,
    )
}

/// What is said of a text whose digits make no bytes.
pub open spec fn odd_digits_text(text: Seq<char>) -> Seq<char> {
    "'"@ + text + "' has an odd number of hex digits"@
}

/// Hex, with or without separators.
pub fn parse_hex(text: &str) -> (r: Result<Vec<u8>, String>)
    ensures
        match r {
            Ok(bytes) => hex_digits(text@).len() % 2 == 0 && bytes@ == paired(hex_digits(text@)),
            Err(message) => hex_digits(text@).len() % 2 != 0 && message@ == odd_digits_text(text@),
        },
{
    let chars = chars_of(text);
    let mut digits: Vec<char> = Vec::new();
    assert(chars@.take(0) =~= Seq::<char>::empty());
    for i in 0..chars.len()
        invariant
            chars@ == text@,
            digits@ == hex_digits(chars@.take(i as int)),
            forall|j: int| 0 <= j < digits@.len() ==> text::is_hex_digit(#[trigger] digits@[j]),
    {
        assert(chars@.take(i + 1).drop_last() =~= chars@.take(i as int));
        if hex_digit(chars[i]) {
            digits.push(chars[i]);
        }
    }
    assert(chars@.take(chars@.len() as int) =~= text@);
    if digits.len() % 2 != 0 {
        let mut message = "'".to_owned();
        append_str(&mut message, text);
        append_str(&mut message, "' has an odd number of hex digits");
        return Err(message);
    }
    let mut bytes: Vec<u8> = Vec::new();
    for i in 0..digits.len() / 2
        invariant
            digits@.len() == hex_digits(text@).len(),
            digits@ == hex_digits(text@),
            forall|j: int| 0 <= j < digits@.len() ==> text::is_hex_digit(#[trigger] digits@[j]),
            bytes@ == paired(digits@).take(i as int),
    {
        let high = hex_digit_value(digits[2 * i]);
        let low = hex_digit_value(digits[2 * i + 1]);
        bytes.push(16 * high + low);
        assert(bytes@ =~= paired(digits@).take(i + 1));
    }
    assert(bytes@ =~= paired(hex_digits(text@)));
    Ok(bytes)
}

/// Why frames cannot be sent.
#[derive(Debug, PartialEq, Eq)]
pub enum FrameError {
    /// There are none.
    NoFrames,
    /// One of them has an odd number of digits.
    BadHex(String),
}

/// What each frame becomes: its bytes, padded and checksummed, in pieces of
/// twenty bytes as base64 texts, one frame after the other.
pub open spec fn is_encoded(texts: Seq<String>, frames: Seq<String>) -> bool
    decreases frames.len(),
{
    if frames.len() == 0 {
        texts.len() == 0
    } else {
        let data = frame::finished(paired(hex_digits(frames.last()@)));
        let n = bytes::frame_chunks(data);
        &&& n <= texts.len()
        &&& is_encoded(texts.take(texts.len() - n), frames.drop_last())
        &&& bytes::is_base64_of(texts.skip(texts.len() - n), data)
    }
}

/// Every frame is sent: the texts of each stand together, and in them every byte of it
/// with its padding and its checksum. The frames are sent in the order in which they
/// were given.
pub proof fn every_frame_is_sent(texts: Seq<String>, frames: Seq<String>, i: int, j: int) -> (r: (
    int,
    int,
))
    requires
        is_encoded(texts, frames),
        0 <= i < j < frames.len(),
    ensures
        ({
            let one = frame::finished(paired(hex_digits(frames[i]@)));
            let other = frame::finished(paired(hex_digits(frames[j]@)));
            let (start, next) = r;
            &&& 0 <= start
            &&& start + bytes::frame_chunks(one) <= next
            &&& next + bytes::frame_chunks(other) <= texts.len()
            &&& bytes::is_base64_of(texts.subrange(start, start + bytes::frame_chunks(one)), one)
            &&& bytes::is_base64_of(texts.subrange(next, next + bytes::frame_chunks(other)), other)
        }),
    decreases frames.len(),
{
    let last = frame::finished(paired(hex_digits(frames.last()@)));
    let end = texts.len() - bytes::frame_chunks(last);
    let before = texts.take(end);
    let fewer = frames.drop_last();
    let n = bytes::frame_chunks(frame::finished(paired(hex_digits(frames[i]@))));
    if j == frames.len() - 1 {
        let start = where_a_frame_stands(before, fewer, i);
        assert(texts.subrange(end, texts.len() as int) =~= texts.skip(end));
        assert(texts.subrange(start, start + n) =~= before.subrange(start, start + n));
        (start, end)
    } else {
        let (start, next) = every_frame_is_sent(before, fewer, i, j);
        let m = bytes::frame_chunks(frame::finished(paired(hex_digits(frames[j]@))));
        assert(texts.subrange(start, start + n) =~= before.subrange(start, start + n));
        assert(texts.subrange(next, next + m) =~= before.subrange(next, next + m));
        (start, next)
    }
}

/// A single frame is sent, too.
pub proof fn where_a_frame_stands(texts: Seq<String>, frames: Seq<String>, i: int) -> (start: int)
    requires
        is_encoded(texts, frames),
        0 <= i < frames.len(),
    ensures
        ({
            let data = frame::finished(paired(hex_digits(frames[i]@)));
            &&& 0 <= start
            &&& start + bytes::frame_chunks(data) <= texts.len()
            &&& bytes::is_base64_of(
                texts.subrange(start, start + bytes::frame_chunks(data)),
                data,
            )
            &&& frames.len() == 1 ==> start == 0 && texts.len() == bytes::frame_chunks(data)
        }),
    decreases frames.len(),
{
    let last = frame::finished(paired(hex_digits(frames.last()@)));
    let end = texts.len() - bytes::frame_chunks(last);
    let before = texts.take(end);
    if i == frames.len() - 1 {
        assert(texts.subrange(end, texts.len() as int) =~= texts.skip(end));
        if frames.len() == 1 {
            assert(is_encoded(before, frames.drop_last()));
            assert(before.len() == 0);
        }
        end
    } else {
        let start = where_a_frame_stands(before, frames.drop_last(), i);
        let n = bytes::frame_chunks(frame::finished(paired(hex_digits(frames[i]@))));
        assert(texts.subrange(start, start + n) =~= before.subrange(start, start + n));
        start
    }
}

/// Whether the digits of a frame make bytes.
pub open spec fn is_readable(frame: String) -> bool {
    hex_digits(frame@).len() % 2 == 0
}

/// A frame can be read if its digits come in pairs, so that one digit more or less makes
/// the difference.
pub proof fn digits_come_in_pairs(frame: String, longer: String, c: char)
    requires
        longer@ == frame@.push(c),
    ensures
        text::is_hex_digit(c) ==> (is_readable(longer) <==> !is_readable(frame)),
        !text::is_hex_digit(c) ==> (is_readable(longer) <==> is_readable(frame)),
        frame@.len() == 0 ==> is_readable(frame),
        is_readable(frame) ==> 2 * paired(hex_digits(frame@)).len() == hex_digits(frame@).len(),
{
    separators_count_for_nothing(frame@, c);
}

/// The frames as they are sent, or the first that cannot be read.
pub fn encode_frames(frames: &Vec<String>) -> (r: Result<Vec<String>, FrameError>)
    ensures
        match r {
            Ok(texts) => {
                &&& frames@.len() > 0
                &&& forall|i: int| 0 <= i < frames@.len() ==> is_readable(#[trigger] frames@[i])
                &&& is_encoded(texts@, frames@)
            },
            Err(FrameError::NoFrames) => frames@.len() == 0,
            Err(FrameError::BadHex(message)) => exists|i: int|
                #![trigger frames@[i]]
                {
                    &&& 0 <= i < frames@.len()
                    &&& !is_readable(frames@[i])
                    &&& message@ == odd_digits_text(frames@[i]@)
                    &&& forall|j: int| 0 <= j < i ==> is_readable(#[trigger] frames@[j])
                },
        },
{
    if frames.len() == 0 {
        return Err(FrameError::NoFrames);
    }
    let mut encoded: Vec<String> = Vec::new();
    for i in 0..frames.len()
        invariant
            forall|j: int| 0 <= j < i ==> is_readable(#[trigger] frames@[j]),
            is_encoded(encoded@, frames@.take(i as int)),
    {
        let data = match parse_hex(frames[i].as_str()) {
            Ok(data) => data,
            Err(message) => {
                assert(!is_readable(frames@[i as int]));
                return Err(FrameError::BadHex(message));
            },
        };
        let packet = Base64HexBytes::with_bytes(data);
        let mut texts = packet.base64();
        let ghost before = encoded@;
        let ghost added = texts@;
        encoded.append(&mut texts);
        proof {
            let n = added.len();
            assert(encoded@ =~= before + added);
            assert(encoded@.take(encoded@.len() - n) =~= before);
            assert(encoded@.skip(encoded@.len() - n) =~= added);
            assert(frames@.take(i + 1).drop_last() =~= frames@.take(i as int));
        }
    }
    assert(frames@.take(frames@.len() as int) =~= frames@);
    Ok(encoded)
}

/// Whether the metadata spells the device so, ignoring case.
pub open spec fn is_called(entry: DeviceEntry, device: Seq<char>) -> bool {
    text::same_ignoring_case(entry.device_name@, device) || text::same_ignoring_case(
        entry.device@,
        device,
    )
}

/// What is said where no device is meant.
pub open spec fn no_device_text(device: Seq<char>) -> Seq<char> {
    "no device matching '"@ + device + "'"@
}

/// Whether this is what a name or an id finds among the devices.
pub open spec fn finds_device(
    devices: Seq<DeviceEntry>,
    device: Seq<char>,
    found: Option<DeviceEntry>,
) -> bool {
    match found {
        Some(entry) => exists|i: int|
            #![trigger devices[i]]
            0 <= i < devices.len() && entry == devices[i] && is_called(devices[i], device)
                && forall|j: int| 0 <= j < i ==> !is_called(#[trigger] devices[j], device),
        None => forall|i: int|
            0 <= i < devices.len() ==> !is_called(#[trigger] devices[i], device),
    }
}

/// Whether this is what a name finds among the shortcuts.
pub open spec fn finds_one_click(
    items: Seq<ParsedOneClick>,
    name: Seq<char>,
    found: Option<ParsedOneClick>,
) -> bool {
    match found {
        Some(item) => exists|i: int|
            #![trigger items[i]]
            0 <= i < items.len() && item == items[i] && item.name@ == name && forall|j: int|
                0 <= j < i ==> (#[trigger] items[j]).name@ != name,
        None => forall|i: int| 0 <= i < items.len() ==> (#[trigger] items[i]).name@ != name,
    }
}

/// A device that is called so is found, unless an earlier one is; a device that is not
/// called so never is.
pub proof fn the_first_device_is_found(
    devices: Seq<DeviceEntry>,
    device: Seq<char>,
    found: Option<DeviceEntry>,
    i: int,
)
    requires
        finds_device(devices, device, found),
        0 <= i < devices.len(),
        is_called(devices[i], device),
    ensures
        found is Some && is_called(found->0, device),
        (forall|j: int| 0 <= j < i ==> !is_called(#[trigger] devices[j], device)) ==> found == Some(
            devices[i],
        ),
{
    let k = choose|k: int|
        #![trigger devices[k]]
        0 <= k < devices.len() && found->0 == devices[k] && is_called(devices[k], device)
            && forall|j: int| 0 <= j < k ==> !is_called(#[trigger] devices[j], device);
    if k < i {
        assert(is_called(devices[k], device));
    } else if i < k {
        assert(!is_called(devices[i], device));
    }
}

/// A shortcut is found by its name, letter for letter, unless an earlier one has it.
pub proof fn the_first_shortcut_is_found(
    items: Seq<ParsedOneClick>,
    name: Seq<char>,
    found: Option<ParsedOneClick>,
    i: int,
)
    requires
        finds_one_click(items, name, found),
        0 <= i < items.len(),
        items[i].name@ == name,
    ensures
        found is Some && found->0.name@ == name,
        (forall|j: int| 0 <= j < i ==> (#[trigger] items[j]).name@ != name) ==> found == Some(
            items[i],
        ),
{
    let k = choose|k: int|
        #![trigger items[k]]
        0 <= k < items.len() && found->0 == items[k] && found->0.name@ == name && forall|j: int|
            0 <= j < k ==> (#[trigger] items[j]).name@ != name;
    if k < i {
        assert(items[k].name@ == name);
    } else if i < k {
        assert(items[i].name@ != name);
    }
}

/// The first device of that name or id.
pub fn find_device<'a>(devices: &'a Vec<DeviceEntry>, device: &str) -> (r: Result<
    &'a DeviceEntry,
    String,
>)
    ensures
        match r {
            Ok(entry) => finds_device(devices@, device@, Some(*entry)),
            Err(_) => finds_device(devices@, device@, None),
        },
        match r {
            Ok(entry) => exists|i: int|
                #![trigger devices@[i]]
                0 <= i < devices@.len() && *entry == devices@[i] && is_called(devices@[i], device@)
                    && forall|j: int| 0 <= j < i ==> !is_called(#[trigger] devices@[j], device@),
            Err(message) => message@ == no_device_text(device@) && forall|i: int|
                0 <= i < devices@.len() ==> !is_called(#[trigger] devices@[i], device@),
        },
{
    for i in 0..devices.len()
        invariant
            forall|j: int| 0 <= j < i ==> !is_called(#[trigger] devices@[j], device@),
    {
        if eq_ignore_ascii_case(devices[i].device_name.as_str(), device) || eq_ignore_ascii_case(
            devices[i].device.as_str(),
            device,
        ) {
            assert(is_called(devices@[i as int], device@));
            return Ok(&devices[i]);
        }
    }
    let mut message = "no device matching '".to_owned();
    append_str(&mut message, device);
    append_str(&mut message, "'");
    Err(message)
}

/// The first shortcut of exactly that name.
pub fn find_one_click<'a>(items: &'a Vec<ParsedOneClick>, name: &str) -> (r: Result<
    &'a ParsedOneClick,
    String,
>)
    ensures
        match r {
            Ok(item) => finds_one_click(items@, name@, Some(*item)),
            Err(_) => finds_one_click(items@, name@, None),
        },
        match r {
            Ok(item) => exists|i: int|
                #![trigger items@[i]]
                0 <= i < items@.len() && *item == items@[i] && item.name@ == name@ && forall|j: int|
                    0 <= j < i ==> (#[trigger] items@[j]).name@ != name@,
            Err(message) => message@ == "didn't find item "@ + name@ && forall|i: int|
                0 <= i < items@.len() ==> (#[trigger] items@[i]).name@ != name@,
        },
{
    for i in 0..items.len()
        invariant
            forall|j: int| 0 <= j < i ==> (#[trigger] items@[j]).name@ != name@,
    {
        if str_eq(items[i].name.as_str(), name) {
            return Ok(&items[i]);
        }
    }
    let mut message = "didn't find item ".to_owned();
    append_str(&mut message, name);
    Err(message)
}

/// The digits of a text are all of its hexadecimal digits, in their order, whatever
/// stands between them.
pub proof fn separators_count_for_nothing(text: Seq<char>, c: char)
    ensures
        text::is_hex_digit(c) ==> hex_digits(text.push(c)) == hex_digits(text).push(c),
        !text::is_hex_digit(c) ==> hex_digits(text.push(c)) == hex_digits(text),
        hex_digits(Seq::<char>::empty()).len() == 0,
{
    assert(text.push(c).drop_last() =~= text);
}

/// Two digits make a byte, the high one first.
pub proof fn two_digits_make_a_byte(digits: Seq<char>, i: int)
    requires
        0 <= i < digits.len() / 2,
        text::is_hex_digit(digits[2 * i]),
        text::is_hex_digit(digits[2 * i + 1]),
    ensures
        paired(digits).len() == digits.len() / 2,
        paired(digits)[i] / 16 == text::hex_value(digits[2 * i]),
        paired(digits)[i] % 16 == text::hex_value(digits[2 * i + 1]),
{
    text::what_a_hex_digit_stands_for(digits[2 * i]);
    text::what_a_hex_digit_stands_for(digits[2 * i + 1]);
}

/// A device is called by its name or its id, in upper or lower case, and by nothing
/// else.
pub proof fn what_a_device_is_called(entry: DeviceEntry, device: Seq<char>)
    ensures
        is_called(entry, device) <==> text::ascii_lowercase(device) == text::ascii_lowercase(
            entry.device_name@,
        ) || text::ascii_lowercase(device) == text::ascii_lowercase(entry.device@),
{
}

} // verus!
