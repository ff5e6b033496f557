//! Folding status notifications into the state of a device.
//!
//! Notifications identify themselves, so they are matched by content rather
//! than by position: a device that answers out of order, or answers only
//! some queries, still tells us something useful.
use vstd::prelude::*;

use crate::base64;
use crate::base64::base64_decode;
use crate::ble::bytes::decode_notification;
use crate::ble::codec;
use crate::ble::codec::{GoveeBlePacket, PacketKind, GENERIC_LIGHT};
use crate::ble::packets::{NotifyDeviceBrightness, NotifyDeviceColor, NotifyDevicePower};
use crate::ble::segment::{NotifySegmentColors, NotifySegmentMode};
use crate::clock::{utc_now, Timestamp};
use crate::lan_api::{DeviceColor, DeviceStatus};
use crate::service::ble_bridge::JobResult;
use crate::service::device::Device;
use crate::text::str_eq;

verus! {

/// What a notification of a light says.
#[derive(Clone, Copy, Debug)]
pub enum LightNews {
    Power(bool),
    Brightness(u8),
    /// A colour and a temperature in Kelvin, which is zero for a colour that is
    /// no white.
    Color(DeviceColor, u32),
    /// The device has segments.
    SegmentMode,
    Page(NotifySegmentColors),
    /// Nothing that changes what is known.
    Nothing,
}

/// The page that a frame of segment colours holds.
pub open spec fn page_in(data: Seq<u8>) -> NotifySegmentColors {
    choose|page: NotifySegmentColors|
        NotifySegmentColors::parsed(data) == Some((page.page, #[trigger] page.segments@))
}

/// What a frame says. A colour frame that carries neither a colour nor a
/// temperature says nothing: some devices answer so however they are lit.
pub open spec fn news_of(data: Seq<u8>) -> LightNews {
    if let Some(power) = NotifyDevicePower::parsed(data) {
        LightNews::Power(power.on)
    } else if let Some(brightness) = NotifyDeviceBrightness::parsed(data) {
        LightNews::Brightness(brightness.percent)
    } else if let Some(color) = NotifyDeviceColor::parsed(data) {
        if color.r == 0 && color.g == 0 && color.b == 0 && color.kelvin.0 == 0 {
            LightNews::Nothing
        } else {
            LightNews::Color(
                DeviceColor { r: color.r, g: color.g, b: color.b },
                color.kelvin.0 as u32,
            )
        }
    } else if NotifySegmentMode::parsed(data) is Some {
        LightNews::SegmentMode
    } else if NotifySegmentColors::parsed(data) is Some {
        LightNews::Page(page_in(data))
    } else {
        LightNews::Nothing
    }
}

/// Reads what a frame says.
pub fn read_news(data: &[u8]) -> (r: LightNews)
    ensures
        r == news_of(data@),
{
    let packet = decode_notification(GENERIC_LIGHT, data);
    proof {
        let bytes = data@;
        let light = GENERIC_LIGHT@;
        assert(codec::readable(PacketKind::NotifyDevicePower, bytes) ==> codec::reads_as(
            PacketKind::NotifyDevicePower,
            bytes,
            packet,
        ));
        assert(codec::readable(PacketKind::NotifyDeviceBrightness, bytes) ==> codec::reads_as(
            PacketKind::NotifyDeviceBrightness,
            bytes,
            packet,
        ));
        assert(codec::readable(PacketKind::NotifyDeviceColor, bytes) ==> codec::reads_as(
            PacketKind::NotifyDeviceColor,
            bytes,
            packet,
        ));
        assert(codec::readable(PacketKind::NotifySegmentMode, bytes) ==> codec::reads_as(
            PacketKind::NotifySegmentMode,
            bytes,
            packet,
        ));
        assert(codec::readable(PacketKind::NotifySegmentColors, bytes) ==> codec::reads_as(
            PacketKind::NotifySegmentColors,
            bytes,
            packet,
        ));
        if !(packet is Generic) {
            let kind = choose|kind: PacketKind|
                codec::sku_supports(light, kind) && #[trigger] codec::readable(kind, bytes);
            assert(codec::sku_supports(light, kind) && codec::readable(kind, bytes));
            assert(codec::reads_as(kind, bytes, packet));
        }
    }
    match packet {
        GoveeBlePacket::NotifyDevicePower(power) => LightNews::Power(power.on),
        GoveeBlePacket::NotifyDeviceBrightness(brightness) => {
            LightNews::Brightness(brightness.percent)
        },
        GoveeBlePacket::NotifyDeviceColor(color) => {
            let kelvin: u32 = match color.kelvin.get() {
                Some(kelvin) => kelvin as u32,
                // Zero is the device telling us it is showing an RGB colour
                // rather than white.
                None => 0,
            };
            if color.r == 0 && color.g == 0 && color.b == 0 && kelvin == 0 {
                LightNews::Nothing
            } else {
                LightNews::Color(DeviceColor { r: color.r, g: color.g, b: color.b }, kelvin)
            }
        },
        GoveeBlePacket::NotifySegmentMode(_) => LightNews::SegmentMode,
        GoveeBlePacket::NotifySegmentColors(page) => {
            proof {
                let other = page_in(data@);
                assert(NotifySegmentColors::parsed(data@) == Some((page.page, page.segments@)));
                assert(page.segments@ == other.segments@);
                assert(page.segments =~= other.segments);
            }
            LightNews::Page(page)
        },
        _ => LightNews::Nothing,
    }
}

/// The bytes of a notification, if the result of a step holds one.
pub open spec fn notified(result: JobResult) -> Option<Seq<u8>> {
    if result.kind@ == "notify"@ {
        match result.data {
            Some(encoded) => base64::base64_data(encoded@),
            None => None,
        }
    } else {
        None
    }
}

/// A device after some news, whether anything changed, and the pages so far.
pub open spec fn told(
    before: (Device, bool, Seq<NotifySegmentColors>),
    news: LightNews,
    now: Timestamp,
) -> (Device, bool, Seq<NotifySegmentColors>) {
    let (device, changed, pages) = before;
    match news {
        LightNews::Power(on) => with_status(
            before,
            DeviceStatus { on, ..device.ble_seed() },
            now,
        ),
        LightNews::Brightness(percent) => with_status(
            before,
            DeviceStatus { brightness: percent, ..device.ble_seed() },
            now,
        ),
        LightNews::Color(color, kelvin) => with_status(
            before,
            DeviceStatus { color, color_temperature_kelvin: kelvin, ..device.ble_seed() },
            now,
        ),
        LightNews::SegmentMode => (
            Device { segment_mode_reported: true, ..device },
            changed || !device.segment_mode_reported,
            pages,
        ),
        LightNews::Page(page) => (device, changed, pages.push(page)),
        LightNews::Nothing => before,
    }
}

/// A device with a new Bluetooth status.
pub open spec fn with_status(
    before: (Device, bool, Seq<NotifySegmentColors>),
    status: DeviceStatus,
    now: Timestamp,
) -> (Device, bool, Seq<NotifySegmentColors>) {
    (
        before.0.with_ble_status(status, now),
        before.1 || before.0.ble_device_status != Some(status),
        before.2,
    )
}

/// A device after all results of a session.
pub open spec fn told_all(device: Device, results: Seq<JobResult>, now: Timestamp) -> (
    Device,
    bool,
    Seq<NotifySegmentColors>,
)
    decreases results.len(),
{
    if results.len() == 0 {
        (device, false, Seq::<NotifySegmentColors>::empty())
    } else {
        let before = told_all(device, results.drop_last(), now);
        match notified(results.last()) {
            Some(data) => told(before, news_of(data), now),
            None => before,
        }
    }
}

/// What the results changed.
#[derive(Clone, Copy, Debug, PartialEq, Eq)]
pub struct NotificationOutcome {
    /// The state is to be published.
    pub changed: bool,
    /// The count of segments moved, so that entities are to be registered.
    pub segments_discovered: bool,
    /// The count to remember for the next run.
    pub remember_segments: Option<u32>,
}

/// The texts of the results are short enough to be decoded.
pub open spec fn are_decodable(results: Seq<JobResult>) -> bool {
    forall|i: int|
        0 <= i < results.len() ==> ((#[trigger] results[i]).data matches Some(encoded)
            ==> encoded@.len() <= usize::MAX / 32)
}

/// The count of the chained strings fits in its type.
pub open spec fn chain_fits(device: Device) -> bool {
    device.chained() matches Some(count) ==> count <= u32::MAX
}

/// Whether a device took the results of a session: the light's attributes one
/// after the other, and then the pages, since how many segments a page carries
/// can only be read from the whole set.
pub open spec fn takes_results(
    before: Device,
    results: Seq<JobResult>,
    now: Timestamp,
    after: Device,
    outcome: NotificationOutcome,
) -> bool {
    let (device, changed, pages) = told_all(before, results, now);
    &&& device.takes_pages(pages, now, after, outcome.segments_discovered)
    &&& outcome.changed == (changed || pages.len() > 0)
    &&& match outcome.remember_segments {
        Some(count) => outcome.segments_discovered && after.visible() == Some(count as int),
        None => outcome.segments_discovered ==> after.visible() is None,
    }
}

/// The news of lights leave the segments alone.
proof fn segments_are_left_alone(device: Device, results: Seq<JobResult>, now: Timestamp)
    ensures
        ({
            let after = told_all(device, results, now).0;
            &&& after.segment_colors == device.segment_colors
            &&& after.segment_page_stride == device.segment_page_stride
            &&& after.sku == device.sku
            &&& after.chained_strings == device.chained_strings
        }),
    decreases results.len(),
{
    if results.len() > 0 {
        segments_are_left_alone(device, results.drop_last(), now);
    }
}

fn tell(
    device: &mut Device,
    news: LightNews,
    now: Timestamp,
    pages: &mut Vec<NotifySegmentColors>,
) -> (changed: bool)
    ensures
        forall|before: bool| #[trigger]
            told((*old(device), before, old(pages)@), news, now) == (
                *final(device),
                before || changed,
                final(pages)@,
            ),
{
    match news {
        LightNews::Power(on) => {
            let mut status = device.ble_status_seed();
            status.on = on;
            device.set_ble_device_status_at(status, now)
        },
        LightNews::Brightness(percent) => {
            let mut status = device.ble_status_seed();
            status.brightness = percent;
            device.set_ble_device_status_at(status, now)
        },
        LightNews::Color(color, kelvin) => {
            let mut status = device.ble_status_seed();
            status.color = color;
            status.color_temperature_kelvin = kelvin;
            device.set_ble_device_status_at(status, now)
        },
        LightNews::SegmentMode => device.set_segment_mode_reported(),
        LightNews::Page(page) => {
            pages.push(page);
            false
        },
        LightNews::Nothing => false,
    }
}

/// Fold status notifications into the device's state, at the current time.
pub fn apply_notifications(device: &mut Device, results: &[JobResult]) -> (r: NotificationOutcome)
    requires
        old(device).wf(),
        chain_fits(*old(device)),
        are_decodable(results@),
    ensures
        final(device).wf(),
        exists|now: Timestamp| #[trigger]
            takes_results(*old(device), results@, now, *final(device), r),
{
    apply_notifications_at(device, results, utc_now())
}

/// Fold status notifications into the device's state.
pub fn apply_notifications_at(device: &mut Device, results: &[JobResult], now: Timestamp) -> (r:
    NotificationOutcome)
    requires
        old(device).wf(),
        chain_fits(*old(device)),
        are_decodable(results@),
    ensures
        final(device).wf(),
        takes_results(*old(device), results@, now, *final(device), r),
{
    let ghost start = *device;
    let mut changed = false;
    let mut pages: Vec<NotifySegmentColors> = Vec::new();
    assert(pages@ =~= Seq::<NotifySegmentColors>::empty());
    for i in 0..results.len()
        invariant
            are_decodable(results@),
            told_all(start, results@.take(i as int), now) == (*device, changed, pages@),
    {
        assert(results@.take(i + 1).drop_last() =~= results@.take(i as int));
        let result = &results[i];
        if str_eq(result.kind.as_str(), "notify") {
            if let Some(encoded) = &result.data {
                assert(results@[i as int].data is Some);
                match base64_decode(encoded.as_str()) {
                    Ok(bytes) => {
                        let news = read_news(bytes.as_slice());
                        let ghost before = (*device, changed, pages@);
                        let news_changed = tell(device, news, now, &mut pages);
                        proof {
                            assert(told(before, news, now) == (
                                *device,
                                changed || news_changed,
                                pages@,
                            ));
                        }
                        changed = changed || news_changed;
                    },
                    Err(_) => {},
                }
            }
        }
    }
    assert(results@.take(results@.len() as int) =~= results@);
    proof {
        segments_are_left_alone(start, results@, now);
    }
    let discovered = device.set_segment_colors_at(pages.as_slice(), now);
    let remember: Option<u32> = if discovered {
        device.visible_segment_count()
    } else {
        None
    };
    NotificationOutcome {
        changed: changed || pages.len() > 0,
        segments_discovered: discovered,
        remember_segments: remember,
    }
}

/// A notification is the data of a result that says it is one, where that is base64.
pub proof fn only_notifications_are_read(result: JobResult)
    ensures
        notified(result) matches Some(data) ==> result.kind@ == "notify"@ && (
        result.data matches Some(encoded) && base64::base64_data(encoded@) == Some(data)),
        result.kind@ == "notify"@ && result.data is Some ==> notified(result)
            == base64::base64_data(result.data->0@),
{
}

/// What a light's frame says is read as just that.
pub proof fn what_a_frame_says_is_read(data: Seq<u8>)
    ensures
        NotifyDevicePower::parsed(data) matches Some(p) ==> news_of(data) == LightNews::Power(p.on),
        NotifyDeviceBrightness::parsed(data) matches Some(p) ==> news_of(data)
            == LightNews::Brightness(p.percent),
        NotifyDeviceColor::parsed(data) matches Some(c) ==> if c.r == 0 && c.g == 0 && c.b == 0
            && c.kelvin.0 == 0 {
            news_of(data) is Nothing
        } else {
            news_of(data) matches LightNews::Color(color, kelvin) && color.r == c.r && color.g
                == c.g && color.b == c.b && kelvin == c.kelvin.0
        },
        NotifySegmentMode::parsed(data) is Some ==> news_of(data) is SegmentMode,
        NotifySegmentColors::parsed(data) is Some ==> news_of(data) is Page,
        news_of(data) is Power ==> NotifyDevicePower::parsed(data) is Some,
        news_of(data) is Brightness ==> NotifyDeviceBrightness::parsed(data) is Some,
        news_of(data) is Color ==> NotifyDeviceColor::parsed(data) is Some,
        news_of(data) is SegmentMode ==> NotifySegmentMode::parsed(data) is Some,
        news_of(data) is Page ==> NotifySegmentColors::parsed(data) is Some,
{
    let kinds = seq![
        PacketKind::NotifyDevicePower,
        PacketKind::NotifyDeviceBrightness,
        PacketKind::NotifyDeviceColor,
        PacketKind::NotifySegmentMode,
        PacketKind::NotifySegmentColors,
    ];
    assert forall|i: int, j: int|
        0 <= i < 5 && 0 <= j < 5 && codec::readable(#[trigger] kinds[i], data) && codec::readable(
            #[trigger] kinds[j],
            data,
        ) implies kinds[i] == kinds[j] by {
        codec::at_most_one_reading(GENERIC_LIGHT@, data, kinds[i], kinds[j]);
    }
    assert(kinds[0] is NotifyDevicePower && kinds[1] is NotifyDeviceBrightness
        && kinds[2] is NotifyDeviceColor && kinds[3] is NotifySegmentMode
        && kinds[4] is NotifySegmentColors);
}

/// A page that is read is the one that the frame holds.
pub proof fn a_page_is_read_as_it_stands(data: Seq<u8>, page: NotifySegmentColors)
    requires
        NotifySegmentColors::parsed(data) == Some((page.page, page.segments@)),
    ensures
        news_of(data) matches LightNews::Page(read) && read.page == page.page && read.segments@
            == page.segments@,
{
    what_a_frame_says_is_read(data);
    assert(NotifySegmentColors::parsed(data) == Some((page.page, page.segments@)));
}

/// One piece of news changes the attribute that it names, and leaves the others as
/// they were known.
pub proof fn news_changes_one_attribute(
    before: (Device, bool, Seq<NotifySegmentColors>),
    news: LightNews,
    now: Timestamp,
)
    ensures
        ({
            let (device, _, pages) = before;
            let (after, changed, paged) = told(before, news, now);
            let known = match device.ble_device_status {
                Some(status) => status,
                None => device.last_known(),
            };
            &&& news is Power || news is Brightness || news is Color ==> (
            after.ble_device_status matches Some(status) && {
                &&& news matches LightNews::Power(on) ==> status.on == on
                &&& !(news is Power) ==> status.on == known.on
                &&& news matches LightNews::Brightness(percent) ==> status.brightness == percent
                &&& !(news is Brightness) ==> status.brightness == known.brightness
                &&& news matches LightNews::Color(color, kelvin) ==> status.color == color
                    && status.color_temperature_kelvin == kelvin
                &&& !(news is Color) ==> status.color == known.color
                    && status.color_temperature_kelvin == known.color_temperature_kelvin
                &&& after.last_ble_device_status_update == Some(now)
                &&& changed == (before.1 || device.ble_device_status != Some(status))
            })
            &&& !(news is Power) && !(news is Brightness) && !(news is Color)
                ==> after.ble_device_status == device.ble_device_status
            &&& news is SegmentMode ==> after.segment_mode_reported && changed == (before.1
                || !device.segment_mode_reported)
            &&& !(news is SegmentMode) ==> after.segment_mode_reported
                == device.segment_mode_reported
            &&& news matches LightNews::Page(page) ==> paged == pages.push(page) && changed
                == before.1
            &&& !(news is Page) ==> paged == pages
            &&& news is Nothing ==> after == device && changed == before.1
            &&& after.lan_device_status == device.lan_device_status && after.iot_device_status
                == device.iot_device_status && after.http_device_state == device.http_device_state
        }),
{
}

/// What a session told last of an attribute is what is known of it afterwards: of
/// the power state, the brightness and the colour alike. An attribute that it told
/// nothing of stays as it was known before Bluetooth spoke.
pub proof fn the_last_notification_counts(
    before: Device,
    results: Seq<JobResult>,
    now: Timestamp,
    at: int,
)
    requires
        0 <= at < results.len(),
        notified(results[at]) is Some,
    ensures
        ({
            let after = told_all(before, results, now).0;
            let news = news_of(notified(results[at])->0);
            &&& news matches LightNews::Power(on) ==> (forall|j: int|
                at < j < results.len() ==> (notified(#[trigger] results[j]) matches Some(data)
                    ==> !(news_of(data) is Power))) ==> (after.ble_device_status matches Some(s)
                && s.on == on)
            &&& news matches LightNews::Brightness(percent) ==> (forall|j: int|
                at < j < results.len() ==> (notified(#[trigger] results[j]) matches Some(data)
                    ==> !(news_of(data) is Brightness))) ==> (after.ble_device_status matches Some(s)
                && s.brightness == percent)
            &&& news matches LightNews::Color(color, kelvin) ==> (forall|j: int|
                at < j < results.len() ==> (notified(#[trigger] results[j]) matches Some(data)
                    ==> !(news_of(data) is Color))) ==> (after.ble_device_status matches Some(s)
                && s.color == color && s.color_temperature_kelvin == kelvin)
            &&& news is SegmentMode ==> after.segment_mode_reported
        }),
    decreases results.len(),
{
    let head = results.drop_last();
    let halfway = told_all(before, head, now);
    assert(results.last() == results[results.len() - 1]);
    if let Some(data) = notified(results.last()) {
        news_changes_one_attribute(halfway, news_of(data), now);
    }
    if at < head.len() {
        the_last_notification_counts(before, head, now, at);
        assert forall|j: int| at < j < head.len() implies head[j] == #[trigger] results[j] by {}
    }
}

/// The last page that a session brought is the last that is merged.
proof fn the_last_page_is_gathered(
    before: Device,
    results: Seq<JobResult>,
    now: Timestamp,
    at: int,
)
    requires
        0 <= at < results.len(),
        notified(results[at]) is Some,
        news_of(notified(results[at])->0) is Page,
        forall|j: int|
            at < j < results.len() ==> (notified(#[trigger] results[j]) matches Some(data)
                ==> !(news_of(data) is Page)),
    ensures
        told_all(before, results, now).2.len() > 0,
        told_all(before, results, now).2.last() == news_of(notified(results[at])->0)->Page_0,
    decreases results.len(),
{
    let head = results.drop_last();
    assert(results.last() == results[results.len() - 1]);
    if at < head.len() {
        assert forall|j: int| at < j < head.len() implies head[j] == #[trigger] results[j] by {}
        the_last_page_is_gathered(before, head, now, at);
        assert(notified(results[results.len() - 1]) matches Some(data) ==> !(news_of(
            data,
        ) is Page));
    }
}

/// What the last page of a session shows of a segment is what is known of it
/// afterwards, three or four segments to a page as the device has them.
pub proof fn a_page_of_a_session_is_shown(
    before: Device,
    results: Seq<JobResult>,
    now: Timestamp,
    after: Device,
    outcome: NotificationOutcome,
    at: int,
    page: NotifySegmentColors,
    n: int,
)
    requires
        before.wf(),
        takes_results(before, results, now, after, outcome),
        0 <= at < results.len(),
        notified(results[at]) is Some,
        NotifySegmentColors::parsed(notified(results[at])->0) == Some((page.page, page.segments@)),
        forall|j: int|
            at < j < results.len() ==> (notified(#[trigger] results[j]) matches Some(data)
                ==> !(news_of(data) is Page)),
        page.page > 0,
        0 <= n < 3,
        page.segments@[n].names_a_segment(),
    ensures
        outcome.changed,
        after.last_segment_colors_update == Some(now),
        after.segment_page_stride matches Some(stride) && 3 <= stride <= 4 && {
            let segment = ((page.page - 1) * stride + n) as u32;
            &&& after.segment_colors@.contains_key(segment)
            &&& after.segment_colors@[segment] == page.segments@[n]
        },
{
    let data = notified(results[at])->0;
    let (device, changed, pages) = told_all(before, results, now);
    a_page_is_read_as_it_stands(data, page);
    the_last_page_is_gathered(before, results, now, at);
    segments_are_left_alone(before, results, now);
    assert(device.wf());
    device.the_widest_page_decides(pages);
    let stride = device.stride_after(pages) as int;
    let last = pages.last();
    assert(last.page == page.page && last.segments@ == page.segments@);
    assert(0 <= (page.page - 1) * stride <= 254 * 4) by (nonlinear_arith)
        requires
            0 < page.page <= 255,
            3 <= stride <= 4,
    ;
    let segment = ((page.page - 1) * stride + n) as u32;
    device.what_pages_show_is_known(
        pages,
        now,
        after,
        outcome.segments_discovered,
        pages.len() - 1,
        n,
        segment,
    );
}

/// What a session told nothing of stays as it was.
pub proof fn silence_changes_nothing(before: Device, results: Seq<JobResult>, now: Timestamp)
    ensures
        ({
            let (after, changed, pages) = told_all(before, results, now);
            let known = before.ble_seed();
            &&& before.ble_device_status is Some ==> after.ble_device_status is Some
            &&& (forall|j: int|
                0 <= j < results.len() ==> (notified(#[trigger] results[j]) matches Some(data)
                    ==> !(news_of(data) is Power))) ==> (after.ble_device_status matches Some(s)
                ==> s.on == known.on)
            &&& (forall|j: int|
                0 <= j < results.len() ==> (notified(#[trigger] results[j]) matches Some(data)
                    ==> !(news_of(data) is Brightness))) ==> (after.ble_device_status matches Some(s)
                ==> s.brightness == known.brightness)
            &&& (forall|j: int|
                0 <= j < results.len() ==> (notified(#[trigger] results[j]) matches Some(data)
                    ==> !(news_of(data) is Color))) ==> (after.ble_device_status matches Some(s)
                ==> s.color == known.color && s.color_temperature_kelvin
                == known.color_temperature_kelvin)
            &&& !changed ==> after.ble_device_status == before.ble_device_status
                && after.segment_mode_reported == before.segment_mode_reported
            &&& (forall|j: int|
                0 <= j < results.len() ==> (notified(#[trigger] results[j]) matches Some(data)
                    ==> news_of(data) is Nothing)) ==> after == before && !changed && pages.len()
                == 0
            &&& after.ble_device_status is None ==> after.ble_seed() == known
        }),
    decreases results.len(),
{
    if results.len() > 0 {
        let head = results.drop_last();
        let halfway = told_all(before, head, now);
        silence_changes_nothing(before, head, now);
        assert(results.last() == results[results.len() - 1]);
        assert forall|j: int| 0 <= j < head.len() implies head[j] == #[trigger] results[j] by {}
        if let Some(data) = notified(results.last()) {
            news_changes_one_attribute(halfway, news_of(data), now);
            seed_survives(halfway, news_of(data), now);
        }
    }
}

proof fn seed_survives(
    before: (Device, bool, Seq<NotifySegmentColors>),
    news: LightNews,
    now: Timestamp,
)
    ensures
        told(before, news, now).0.ble_device_status is None ==> told(
            before,
            news,
            now,
        ).0.ble_seed() == before.0.ble_seed(),
{
    let after = told(before, news, now).0;
    if news is SegmentMode {
        assert(after.lan_state() == before.0.lan_state());
        assert(after.http_state() == before.0.http_state());
        assert(after.iot_state() == before.0.iot_state());
        assert(after.ble_state() == before.0.ble_state());
        assert(after.state() == before.0.state());
    }
}

/// A session is news exactly if it told something that was not known or brought a
/// page of segments; and it discovers segments exactly if their count moves.
pub proof fn when_a_session_is_news(
    before: Device,
    results: Seq<JobResult>,
    now: Timestamp,
    after: Device,
    outcome: NotificationOutcome,
)
    requires
        takes_results(before, results, now, after, outcome),
    ensures
        !outcome.changed ==> after.ble_device_status == before.ble_device_status
            && after.segment_mode_reported == before.segment_mode_reported
            && after.segment_colors@ == before.segment_colors@ && !outcome.segments_discovered,
        outcome.segments_discovered ==> outcome.changed,
        outcome.segments_discovered <==> after.addressed() != told_all(
            before,
            results,
            now,
        ).0.addressed(),
        outcome.remember_segments is Some ==> outcome.segments_discovered,
        outcome.remember_segments matches Some(count) ==> after.visible() == Some(count as int),
        outcome.segments_discovered && after.visible() is Some ==> outcome.remember_segments
            is Some,
        after.ble_device_status == told_all(before, results, now).0.ble_device_status,
{
    silence_changes_nothing(before, results, now);
    segments_are_left_alone(before, results, now);
}

/// A device that answers a colour query with neither a colour nor a temperature
/// keeps what is known of it.
pub proof fn an_empty_colour_is_no_news(
    before: (Device, bool, Seq<NotifySegmentColors>),
    data: Seq<u8>,
    now: Timestamp,
)
    requires
        NotifyDeviceColor::parsed(data) matches Some(color) && color.r == 0 && color.g == 0
            && color.b == 0 && color.kelvin.0 == 0,
    ensures
        told(before, news_of(data), now) == before,
{
    if NotifyDevicePower::parsed(data) is Some {
        codec::at_most_one_reading(
            GENERIC_LIGHT@,
            data,
            PacketKind::NotifyDevicePower,
            PacketKind::NotifyDeviceColor,
        );
    }
    if NotifyDeviceBrightness::parsed(data) is Some {
        codec::at_most_one_reading(
            GENERIC_LIGHT@,
            data,
            PacketKind::NotifyDeviceBrightness,
            PacketKind::NotifyDeviceColor,
        );
    }
}

} // verus!
