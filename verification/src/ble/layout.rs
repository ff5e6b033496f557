//! Where the bytes of each frame stand: what a device sees of a command, and what
//! is taken out of what it reports.
use vstd::prelude::*;

use crate::ble::frame;
use crate::ble::packets;
use crate::ble::packets::{
    HumidifierAutoMode, NotifyDeviceBrightness, NotifyDeviceColor, NotifyDevicePower,
    NotifyHumidifierMode, NotifyHumidifierNightlightParams, SetDeviceBrightness, SetDeviceColorRgb,
    SetDeviceColorTemperature, SetDevicePower, SetHumidifierMode, SetHumidifierNightlightParams,
};
use crate::ble::params::Kelvin;
use crate::ble::segment;
use crate::ble::segment::{
    NotifySegmentColors, NotifySegmentMode, SetSegmentBrightness, SetSegmentColorRgb,
};

verus! {

/// A light sees the power state in the third byte of the frame, one for on and zero
/// for off, and the brightness in the third byte of another.
pub proof fn power_and_brightness_stand_third(on: bool, percent: u8)
    ensures
        ({
            let f = frame::finished((SetDevicePower { on }).payload());
            &&& f.len() == 20
            &&& f[0] == 0x33 && f[1] == 0x01
            &&& on ==> f[2] == 1
            &&& !on ==> f[2] == 0
            &&& forall|i: int| 3 <= i < 19 ==> #[trigger] f[i] == 0
        }),
        ({
            let f = frame::finished((SetDeviceBrightness { percent }).payload());
            &&& f.len() == 20
            &&& f[0] == 0x33 && f[1] == 0x04 && f[2] == percent
            &&& forall|i: int| 3 <= i < 19 ==> #[trigger] f[i] == 0
        }),
{
}

/// A light sees a colour as red, green and blue from the fourth byte on, and a
/// temperature as a number behind a white colour, its high byte first.
pub proof fn a_colour_stands_fourth(r: u8, g: u8, b: u8, kelvin: Kelvin)
    ensures
        ({
            let f = frame::finished((SetDeviceColorRgb { r, g, b }).payload());
            &&& f.len() == 20
            &&& f[0] == 0x33 && f[1] == 0x05 && f[2] == 0x0d
            &&& f[3] == r && f[4] == g && f[5] == b
            &&& forall|i: int| 6 <= i < 19 ==> #[trigger] f[i] == 0
        }),
        ({
            let f = frame::finished((SetDeviceColorTemperature { kelvin }).payload());
            &&& f.len() == 20
            &&& f[0] == 0x33 && f[1] == 0x05 && f[2] == 0x0d
            &&& f[3] == 0xff && f[4] == 0xff && f[5] == 0xff
            &&& f[6] * 256 + f[7] == kelvin@
            &&& forall|i: int| 8 <= i < 19 ==> #[trigger] f[i] == 0
        }),
{
}

/// A humidifier sees its mode and the parameter of it in the third and the fourth
/// byte, and of its nightlight the power state, the brightness and the colour from
/// the third byte on.
pub proof fn what_a_humidifier_sees(mode: SetHumidifierMode, light: SetHumidifierNightlightParams)
    ensures
        ({
            let f = frame::finished(mode.payload());
            &&& f.len() == 20
            &&& f[0] == 0x33 && f[1] == 0x05 && f[2] == mode.mode && f[3] == mode.param
            &&& forall|i: int| 4 <= i < 19 ==> #[trigger] f[i] == 0
        }),
        ({
            let f = frame::finished(light.payload());
            &&& f.len() == 20
            &&& f[0] == 0x33 && f[1] == 0x1b
            &&& light.on ==> f[2] == 1
            &&& !light.on ==> f[2] == 0
            &&& f[3] == light.brightness && f[4] == light.r && f[5] == light.g && f[6] == light.b
            &&& forall|i: int| 7 <= i < 19 ==> #[trigger] f[i] == 0
        }),
{
}

/// A segmented light sees the colour of a segment command in the fifth to the
/// seventh byte and the mask from the thirteenth byte on; and the brightness of one
/// in the fifth byte, with the mask right behind it.
pub proof fn where_a_segment_command_puts_its_mask(color: SetSegmentColorRgb, dim: SetSegmentBrightness)
    ensures
        ({
            let f = frame::finished(color.payload());
            &&& f.len() == 20
            &&& f[0] == 0x33 && f[1] == 0x05 && f[2] == 0x15 && f[3] == 0x01
            &&& f[4] == color.r && f[5] == color.g && f[6] == color.b
            &&& f.subrange(12, 19) == color.mask@
            &&& forall|i: int| 7 <= i < 12 ==> #[trigger] f[i] == 0
        }),
        ({
            let f = frame::finished(dim.payload());
            &&& f.len() == 20
            &&& f[0] == 0x33 && f[1] == 0x05 && f[2] == 0x15 && f[3] == 0x02 && f[4] == dim.percent
            &&& f.subrange(5, 12) == dim.mask@
            &&& forall|i: int| 12 <= i < 19 ==> #[trigger] f[i] == 0
        }),
{
    let f = frame::finished(color.payload());
    assert(f.subrange(12, 19) =~= color.mask@);
    let d = frame::finished(dim.payload());
    assert(d.subrange(5, 12) =~= dim.mask@);
}

/// Segment `n` of a mask is bit `n % 8` of byte `n / 8`, counted from the lowest.
pub proof fn a_mask_counts_from_the_lowest_bit(mask: Seq<u8>, n: nat)
    requires
        n < 56,
        mask.len() == 7,
    ensures
        segment::mask_names(mask, n) <==> (mask[(n / 8) as int] >> ((n % 8) as u8)) & 1 == 1,
{
}

proof fn a_prefix_is_its_bytes(data: Seq<u8>, prefix: Seq<u8>)
    requires
        prefix.len() <= data.len(),
        forall|i: int| 0 <= i < prefix.len() ==> #[trigger] data[i] == prefix[i],
    ensures
        prefix.is_prefix_of(data),
{
    assert(prefix =~= data.subrange(0, prefix.len() as int));
}

/// What a light reports is read out of any valid frame with the right header: the
/// power state, which is on unless the third byte is zero, the brightness in the
/// third byte, and the colour behind a mode byte, with the temperature after it.
pub proof fn what_a_light_reports(data: Seq<u8>)
    requires
        frame::is_valid_frame(data),
        data[0] == 0xaa,
    ensures
        NotifyDevicePower::parsed(data) is Some <==> data[1] == 0x01,
        NotifyDevicePower::parsed(data) matches Some(p) ==> (p.on <==> data[2] != 0),
        NotifyDeviceBrightness::parsed(data) is Some <==> data[1] == 0x04,
        NotifyDeviceBrightness::parsed(data) matches Some(p) ==> p.percent == data[2],
        NotifyDeviceColor::parsed(data) is Some <==> data[1] == 0x05 && data[2] != 0x15,
        NotifyDeviceColor::parsed(data) matches Some(c) ==> {
            &&& c.mode == data[2] && c.r == data[3] && c.g == data[4] && c.b == data[5]
            &&& c.kelvin.0 == data[6] * 256 + data[7]
        },
        NotifySegmentMode::parsed(data) is Some <==> data[1] == 0x05 && data[2] == 0x15,
        NotifySegmentColors::parsed(data) is Some <==> data[1] == 0xa5,
        NotifySegmentColors::parsed(data) matches Some((page, groups)) ==> {
            &&& page == data[2]
            &&& groups.len() == 4
            &&& forall|k: int|
                0 <= k < 4 ==> (#[trigger] groups[k]).brightness == data[3 + 4 * k] && groups[k].r
                    == data[4 + 4 * k] && groups[k].g == data[5 + 4 * k] && groups[k].b == data[6 + 4
                    * k]
        },
{
    if data[1] == 0x01 {
        a_prefix_is_its_bytes(data, seq![0xaau8, 0x01]);
    } else {
        assert(data.subrange(0, 2)[1] != seq![0xaau8, 0x01][1]);
    }
    if data[1] == 0x04 {
        a_prefix_is_its_bytes(data, seq![0xaau8, 0x04]);
    } else {
        assert(data.subrange(0, 2)[1] != seq![0xaau8, 0x04][1]);
    }
    if data[1] == 0x05 {
        a_prefix_is_its_bytes(data, seq![0xaau8, 0x05]);
        if data[2] == 0x15 {
            a_prefix_is_its_bytes(data, seq![0xaau8, 0x05, 0x15]);
        } else {
            assert(data.subrange(0, 3)[2] != seq![0xaau8, 0x05, 0x15u8][2]);
        }
    } else {
        assert(data.subrange(0, 2)[1] != seq![0xaau8, 0x05][1]);
        assert(data.subrange(0, 3)[1] != seq![0xaau8, 0x05, 0x15u8][1]);
    }
    if data[1] == 0xa5 {
        a_prefix_is_its_bytes(data, seq![0xaau8, 0xa5]);
    } else {
        assert(data.subrange(0, 2)[1] != seq![0xaau8, 0xa5][1]);
    }
}

/// A frame that is not complete, or whose last byte is not the XOR of the others,
/// reports nothing of a light.
pub proof fn a_damaged_frame_reports_nothing(data: Seq<u8>)
    requires
        !frame::is_valid_frame(data),
    ensures
        NotifyDevicePower::parsed(data) is None,
        NotifyDeviceBrightness::parsed(data) is None,
        NotifyDeviceColor::parsed(data) is None,
        NotifySegmentMode::parsed(data) is None,
        NotifySegmentColors::parsed(data) is None,
{
}

/// What a humidifier reports is read out of the bytes in which it stands.
pub proof fn what_a_humidifier_reports(data: Seq<u8>)
    ensures
        NotifyHumidifierMode::parsed(data) matches Some(m) ==> data[0] == 0xaa && data[1] == 0x05
            && data[2] == 0x00 && m.mode == data[3] && m.param == data[4],
        HumidifierAutoMode::parsed(data) matches Some(m) ==> data[0] == 0xaa && data[1] == 0x05
            && data[2] == 0x03 && m.target_humidity.0 == data[3],
        NotifyHumidifierNightlightParams::parsed(data) matches Some(n) ==> {
            &&& data[0] == 0xaa && data[1] == 0x1b
            &&& n.on <==> data[2] != 0
            &&& n.brightness == data[3] && n.r == data[4] && n.g == data[5] && n.b == data[6]
        },
{
    let body = packets::without_checksum(data);
    if NotifyHumidifierMode::parsed(data) is Some {
        let prefix = seq![0xaau8, 0x05, 0x00];
        assert(prefix =~= body.subrange(0, 3));
        assert(body.subrange(0, 3)[0] == data[0] && body.subrange(0, 3)[1] == data[1]
            && body.subrange(0, 3)[2] == data[2]);
    }
    if HumidifierAutoMode::parsed(data) is Some {
        let prefix = seq![0xaau8, 0x05, 0x03];
        assert(prefix =~= body.subrange(0, 3));
        assert(body.subrange(0, 3)[0] == data[0] && body.subrange(0, 3)[1] == data[1]
            && body.subrange(0, 3)[2] == data[2]);
    }
    if NotifyHumidifierNightlightParams::parsed(data) is Some {
        let prefix = seq![0xaau8, 0x1b];
        assert(prefix =~= body.subrange(0, 2));
        assert(body.subrange(0, 2)[0] == data[0] && body.subrange(0, 2)[1] == data[1]);
    }
}

proof fn xor_after_a_change(data: Seq<u8>, i: int, byte: u8)
    requires
        0 <= i < data.len(),
    ensures
        frame::xor_all(data.update(i, byte)) == frame::xor_all(data) ^ data[i] ^ byte,
    decreases data.len(),
{
    let after = data.update(i, byte);
    let head = data.drop_last();
    let x = frame::xor_all(head);
    let l = data.last();
    if i == data.len() - 1 {
        assert(after.drop_last() =~= head);
        assert(x ^ byte == x ^ l ^ l ^ byte) by (bit_vector);
    } else {
        assert(after.drop_last() =~= head.update(i, byte));
        xor_after_a_change(head, i, byte);
        let d = data[i];
        assert((x ^ d ^ byte) ^ l == (x ^ l) ^ d ^ byte) by (bit_vector);
    }
}

/// One wrong byte in a frame is noticed, wherever it stands.
pub proof fn one_wrong_byte_is_noticed(data: Seq<u8>, i: int, byte: u8)
    requires
        frame::is_valid_frame(data),
        0 <= i < 20,
        byte != data[i],
    ensures
        !frame::is_valid_frame(data.update(i, byte)),
{
    let after = data.update(i, byte);
    if i < 19 {
        assert(after.take(19) =~= data.take(19).update(i, byte));
        xor_after_a_change(data.take(19), i, byte);
        let (x, d) = (frame::xor_all(data.take(19)), data[i]);
        assert(x ^ d ^ byte != x) by (bit_vector)
            requires
                byte != d,
        ;
    } else {
        assert(after.take(19) =~= data.take(19));
    }
}

} // verus!
