use govee::ble::{
    decode_notification, GoveeBlePacket, NotifySegmentColors, SegmentColor, SetSegmentColorRgb,
    GENERIC_LIGHT, SEGMENT_MASK_BYTES,
};
use govee::clock::Timestamp;
use govee::lan_api::{DeviceColor, DeviceStatus, LanDevice};
use govee::platform_api::{
    CapabilityValue, DeviceCapability, DeviceCapabilityState, DeviceType, HttpDeviceInfo,
    HttpDeviceState,
};
use govee::service::device::{BleAddressSource, Device, UndocDeviceInfo};
use govee::service::quirks::Quirk;
use govee::undoc_api::{DeviceEntry, DeviceEntryExt, DeviceSettings};

#[test]
fn name_compute() {
    let device = Device::new("H6000", "AA:BB:CC:DD:EE:FF:42:2A");
    assert_eq!(device.name(), "H6000_422A");

    let device = Device::new("H6127", "cef142b0b354995f");
    assert_eq!(device.name(), "H6127_995F");

    let device = Device::new("H6127", "ce");
    assert_eq!(device.name(), "H6127_CE");
}

/// A device that answers pages it does not have is caught by the
/// brightness byte.
///
/// The exact frames an H6116 with fifteen segments sent on 2026-08-26. Its
/// five real pages carry brightnesses of 0x23 and 0x41; page six, which the
/// hardware does not have, comes back filled with 0xff. Brightness is a
/// percentage, so 0xff is not a reading — and that is the only thing
/// separating the two, since an invented group is not all-zero and so
/// slips past the padding rule.
#[test]
fn a_page_the_device_does_not_have_is_not_counted() {
    let real = |brightness: u8| SegmentColor {
        brightness,
        r: 0,
        g: 255,
        b: 0,
    };
    let invented = SegmentColor {
        brightness: 0xff,
        r: 0x17,
        g: 0x3b,
        b: 0x80,
    };

    let mut device = Device::new("H6116", "AA:BB:CC:DD:EE:FF:00:07");
    let mut pages: Vec<_> = (1..=5)
        .map(|page| NotifySegmentColors {
            page,
            segments: [real(0x23), real(0x23), real(0x41), SegmentColor::default()],
        })
        .collect();
    pages.push(NotifySegmentColors {
        page: 6,
        segments: [
            SegmentColor {
                brightness: 0xff,
                r: 0,
                g: 0,
                b: 0,
            },
            invented,
            SegmentColor {
                brightness: 0xff,
                r: 0,
                g: 0,
                b: 0,
            },
            SegmentColor::default(),
        ],
    });

    device.set_segment_colors(&pages);
    assert_eq!(
        device.visible_segment_count(),
        Some(15),
        "five pages of three, and the sixth is not hardware"
    );
}

/// A count that shrinks has to be announced too.
///
/// Home Assistant is told to re-publish a device's configs when this
/// returns true, and that is what drives retraction. Reporting only growth
/// left a corrected count with no way to clean up after itself.
#[test]
fn a_segment_count_that_shrinks_is_still_news() {
    let lit = SegmentColor {
        brightness: 50,
        r: 255,
        g: 0,
        b: 0,
    };
    let page = |page: u8| NotifySegmentColors {
        page,
        segments: [lit, lit, lit, SegmentColor::default()],
    };

    let mut device = Device::new("H6116", "AA:BB:CC:DD:EE:FF:00:04");

    // Six pages of three: eighteen segments, and that is news.
    let pages: Vec<_> = (1..=6).map(page).collect();
    assert!(device.set_segment_colors(&pages));
    assert_eq!(device.visible_segment_count(), Some(18));

    // The device now answers only two pages. Six entities, and the twelve
    // that are gone have to be retracted -- so this must be news as well.
    let mut device = Device::new("H6116", "AA:BB:CC:DD:EE:FF:00:05");
    device.set_remembered_segment_count(18);
    assert_eq!(device.visible_segment_count(), Some(18));
    assert!(
        device.set_segment_colors(&[page(1), page(2)]),
        "a count falling from eighteen to six is a change"
    );
    assert_eq!(device.visible_segment_count(), Some(6));
}

/// A count that outgrew the command mask must not cost the device its
/// controls.
///
/// Segment discovery once inflated a Bluetooth-only H6116 to sixty
/// segments. Sixty is past the fifty-six a mask can name, so the colour
/// command would not encode, Bluetooth failed, and with no other transport
/// to fall back on the light became uncontrollable from Home Assistant.
/// Being wrong about the count is survivable; refusing to send anything is
/// not.
#[test]
fn an_inflated_count_cannot_outgrow_the_command_mask() {
    let addressable = (SEGMENT_MASK_BYTES * 8) as u32;

    let mut device = Device::new("H6116", "AA:BB:CC:DD:EE:FF:00:03");
    device.set_remembered_segment_count(60);
    assert_eq!(device.segment_count(), Some(addressable));

    // And every segment it names can actually be encoded.
    let count = device.segment_count().unwrap();
    let segments: Vec<u32> = (0..count).collect();
    SetSegmentColorRgb::for_segments(&segments, (255, 0, 0))
        .expect("a mask over every segment we claim must encode");
}

/// A chainable string reports slots for what it *could* drive.
///
/// Both of the usual sources say thirty for an H7020 with one string
/// attached, so the smaller-of-two rule cannot help. `aa 0f` is the only
/// thing that distinguishes the cases, and the per-model string length
/// turns it into a count. Verified against hardware and against what the
/// Govee app drew when the value was changed underneath it.
#[test]
fn a_chained_string_beats_the_slot_count() {
    let mut device = Device::new("H7020", "AA:BB:CC:DD:EE:FF:00:01");
    // Thirty slots, as the device reports them over `aa a5`.
    device.set_remembered_segment_count(30);
    assert_eq!(device.visible_segment_count(), Some(30));

    // One string plugged in: fifteen bulbs.
    assert!(device.set_chained_strings(1));
    assert_eq!(device.visible_segment_count(), Some(15));

    // A second string, and the phantoms become real.
    assert!(device.set_chained_strings(2));
    assert_eq!(device.visible_segment_count(), Some(30));

    // Saying the same thing twice is not news, so it does not republish
    // discovery configs.
    assert!(!device.set_chained_strings(2));
}

/// The rule applies only to models that can be chained.
#[test]
fn a_string_count_alone_decides_nothing() {
    let mut device = Device::new("H6072", "AA:BB:CC:DD:EE:FF:00:02");
    device.set_remembered_segment_count(8);
    // Even if such a device claimed a string count, we have no length for
    // it, so the reported slots still win.
    assert!(device.set_chained_strings(1));
    assert_eq!(device.visible_segment_count(), Some(8));
}

#[test]
fn ble_address_is_derived_from_the_device_id() {
    // The account metadata reports address=CF:00:00:00:00:25 for this device id.
    let device = Device::new("H6072", "47:13:CF:00:00:00:00:25");
    assert_eq!(device.ble_address().as_deref(), Some("CF:00:00:00:00:25"));
}

#[test]
fn ble_address_is_upper_cased() {
    let device = Device::new("H6072", "47:13:cf:00:00:00:00:25");
    assert_eq!(device.ble_address().as_deref(), Some("CF:00:00:00:00:25"));
}

#[test]
fn an_id_that_is_not_a_mac_yields_no_ble_address() {
    // Some devices report a bare hex id with no separators.
    assert_eq!(Device::new("H6127", "aabbccddeeff4222").ble_address(), None);
    assert_eq!(Device::new("H6127", "not-a-mac").ble_address(), None);
}

#[test]
fn ble_status_updates_merge_rather_than_replace() {
    // Each notification covers one attribute, so brightness must survive a
    // later power notification.
    let mut device = Device::new("H6127", "AA:BB:CC:DD:EE:FF:11:22");
    assert!(device.update_ble_device_status(|status: &mut DeviceStatus| status.brightness = 42));
    assert!(device.update_ble_device_status(|status: &mut DeviceStatus| status.on = true));

    let status = device.ble_device_status.as_ref().unwrap();
    assert_eq!(status.brightness, 42);
    assert!(status.on);
}

/// An account entry with the Wi-Fi name cleared. That absence is exactly
/// what marks a device as Bluetooth-only, so this is the shape the heuristic
/// actually sees.
fn undoc_entry_without_wifi() -> DeviceEntry {
    DeviceEntry {
        sku: "H6072".to_string(),
        device: "47:13:CF:00:00:00:00:25".to_string(),
        device_name: "Floor Lamp".to_string(),
        group_id: 0,
        device_ext: DeviceEntryExt {
            device_settings: DeviceSettings {
                topic: Some("GD/lamp".to_string()),
                address: Some("CF:00:00:00:00:25".to_string()),
                wifi_name: None,
            },
        },
    }
}

fn known_to_the_account(entry: DeviceEntry) -> Option<UndocDeviceInfo> {
    Some(UndocDeviceInfo {
        room_name: None,
        entry,
    })
}

/// A Bluetooth-only light has no Platform capabilities and no LAN presence,
/// so without this it lands in Home Assistant as a diagnostic sensor with no
/// way to switch it on.
#[test]
fn a_ble_only_light_reports_the_generic_light_capabilities() {
    let mut device = Device::new("H6116", "7E:16:A4:C1:38:14:E6:5A");
    device.undoc_device_info = known_to_the_account(undoc_entry_without_wifi());

    assert_eq!(device.is_ble_only_device(), Some(true));
    assert!(device.is_ble_only_light());
    assert!(device.supports_rgb());
    assert!(device.supports_brightness());
    assert_eq!(device.get_color_temperature_range(), Some((2000, 9000)));
}

#[test]
fn the_metadata_address_wins_over_the_derived_one() {
    // The account states the address outright; deriving it from the device
    // id is only the fallback.
    let mut device = Device::new("H6116", "7E:16:A4:C1:38:14:E6:5A");
    device.undoc_device_info = known_to_the_account(undoc_entry_without_wifi());

    assert_eq!(device.ble_address().as_deref(), Some("CF:00:00:00:00:25"));
}

fn segment_page(hex: &str) -> NotifySegmentColors {
    let bytes: Vec<u8> = (0..hex.len())
        .step_by(2)
        .map(|n| u8::from_str_radix(&hex[n..n + 2], 16).unwrap())
        .collect();
    match decode_notification(GENERIC_LIGHT, &bytes) {
        GoveeBlePacket::NotifySegmentColors(page) => page,
        other => panic!("expected a segment page, got {other:?}"),
    }
}

/// H6072: three groups a page, the fourth quad zero padding. Nine slots
/// for eight segments, the ninth carrying filler.
#[test]
fn a_three_group_device_maps_three_segments_per_page() {
    let pages = [
        segment_page("aaa5015fff00005f00ff005fffff000000000051"),
        segment_page("aaa5025f00ff005fff00ff5f00ff000000000052"),
        segment_page("aaa5035f00ffff5f00ff002a5f5f5f0000000086"),
    ];

    let mut device = Device::new("H6072", "FC:20:CF:33:34:38:29:59");
    device.set_segment_colors(&pages);

    assert_eq!(device.segment_color(0).unwrap().r, 0xff, "segment 1 is red");
    assert_eq!(
        device.segment_color(3).unwrap().g,
        0xff,
        "page 2 starts at 4"
    );
    assert_eq!(
        device.segment_color(6).unwrap().b,
        0xff,
        "page 3 starts at 7"
    );
    assert_eq!(device.segment_color(9), None, "nothing past the ninth slot");
}

/// H6054: two light bars of six, so four groups a page and twelve segments.
/// Captured from the device and checked against the Govee app, which shows
/// the bars as purple and blue at 50/51 %.
#[test]
fn a_four_group_device_maps_four_segments_per_page() {
    let pages = [
        segment_page("aaa501338b00ff338b00ff328b00ff328b00ff0e"),
        segment_page("aaa502328b00ff328b00ff330000ff330000ff0d"),
        segment_page("aaa503330000ff330000ff320000ff320000ff0c"),
    ];

    let mut device = Device::new("H6054", "5B:49:D7:39:32:37:5A:3E");
    device.set_segment_colors(&pages);

    // Twelve segments, not the nine a three-group stride would give.
    assert_eq!(device.segment_colors.len(), 12);

    // Six purple then six blue, matching the two bars in the app.
    for n in 0..6 {
        let c = device.segment_color(n).expect("a purple segment");
        assert_eq!((c.r, c.g, c.b), (0x8b, 0x00, 0xff), "segment {n}");
    }
    for n in 6..12 {
        let c = device.segment_color(n).expect("a blue segment");
        assert_eq!((c.r, c.g, c.b), (0x00, 0x00, 0xff), "segment {n}");
    }
}

/// The two counts answer different questions and the errors point opposite
/// ways: addressing past the end is harmless, an entity past the end is a
/// control that does nothing. An H7093 makes the difference concrete —
/// Govee claims fifteen segments for two garden spots.
#[test]
fn addressing_is_generous_where_entities_are_not() {
    let mut device = Device::new("H7093", "1F:54:DD:6E:05:C6:49:83");

    // Before the device has said anything, the metadata is all we have.
    assert_eq!(device.reported_segment_count(), None);

    device.set_segment_colors(&[segment_page("aaa501328a00ff320000ff000000000000000084")]);

    // Two spots is what the device reports, and what the user should see.
    assert_eq!(device.visible_segment_count(), Some(2));
    assert_eq!(device.segment_count(), Some(2));
}

/// Discovery lives in memory, so without carrying the count over a restart
/// a Bluetooth-only device's entities go unavailable and return over the
/// following polls while it re-learns.
#[test]
fn a_remembered_count_survives_having_heard_nothing_yet() {
    let mut device = Device::new("H6116", "7E:16:A4:C1:38:14:E6:5A");

    // Fresh from a restart: no frames yet, and no metadata either.
    assert_eq!(device.visible_segment_count(), None);
    assert!(!device.is_segmented());

    device.set_remembered_segment_count(12);

    assert_eq!(device.visible_segment_count(), Some(12));
    assert_eq!(device.segment_count(), Some(12));
    assert!(device.is_segmented());
}

/// What the device says now replaces what we remembered, in both
/// directions. A poll maps a device completely, so its current answer is
/// complete — and a device that has shrunk must not stay inflated until the
/// remembered value expires.
#[test]
fn what_the_device_says_now_replaces_what_we_remembered() {
    let grown = {
        let mut device = Device::new("H6116", "7E:16:A4:C1:38:14:E6:5A");
        device.set_remembered_segment_count(3);
        device.set_segment_colors(&[
            segment_page("aaa5015fff00005f00ff005fffff000000000051"),
            segment_page("aaa5025f00ff005fff00ff5f00ff000000000052"),
        ]);
        device
    };
    assert_eq!(grown.visible_segment_count(), Some(6));

    let shrunk = {
        let mut device = Device::new("H6116", "7E:16:A4:C1:38:14:E6:5A");
        device.set_remembered_segment_count(12);
        device.set_segment_colors(&[segment_page("aaa5015fff00005f00ff005fffff000000000051")]);
        device
    };
    assert_eq!(shrunk.visible_segment_count(), Some(3), "not still twelve");
}

/// Govee's filler slot is not all-zero, so it survives the padding rule and
/// inflates the device's own count by one. Where the metadata also has an
/// opinion, the smaller of the two is the safer thing to show.
#[test]
fn the_smaller_count_wins_for_entities() {
    let mut device = Device::new("H6072", "FC:20:CF:33:34:38:29:59");
    device.set_segment_colors(&[
        segment_page("aaa5015fff00005f00ff005fffff000000000051"),
        segment_page("aaa5025f00ff005fff00ff5f00ff000000000052"),
        // The last group here is Govee's filler, not a segment.
        segment_page("aaa5035f00ffff5f00ff002a5f5f5f0000000086"),
    ]);

    // Nine slots came back, and there is no way to tell the ninth apart
    // from a real one by looking at it.
    assert_eq!(device.reported_segment_count(), Some(9));

    // Addressing may reach all nine; only eight get a control.
    assert_eq!(device.segment_count(), Some(9));
    assert_eq!(device.visible_segment_count(), Some(9), "no metadata yet");
}

/// An H7093 with two garden spots sends a single page and pads the rest.
/// Recording the padding would invent a third, permanently black segment.
#[test]
fn padding_does_not_become_a_black_segment() {
    let mut device = Device::new("H7093", "1F:54:DD:6E:05:C6:49:83");
    device.set_segment_colors(&[segment_page("aaa501328a00ff320000ff000000000000000084")]);

    assert_eq!(device.segment_colors.len(), 2, "two spots, not three");
    assert_eq!(
        device.segment_color(0).map(|c| (c.r, c.g, c.b)),
        Some((0x8a, 0x00, 0xff))
    );
    assert_eq!(
        device.segment_color(1).map(|c| (c.r, c.g, c.b)),
        Some((0x00, 0x00, 0xff))
    );
    assert_eq!(device.segment_color(2), None);
}

/// Once a device has shown four groups the stride sticks, so a later batch
/// whose last segment happens to be switched off — black, and therefore
/// indistinguishable from padding — cannot shift the whole map.
#[test]
fn the_page_stride_does_not_narrow_again() {
    let mut device = Device::new("H6054", "5B:49:D7:39:32:37:5A:3E");
    device.set_segment_colors(&[segment_page("aaa501338b00ff338b00ff328b00ff328b00ff0e")]);
    assert_eq!(device.segment_colors.len(), 4);

    // Same device, but every fourth segment now off.
    device.set_segment_colors(&[segment_page("aaa502328b00ff328b00ff330000ff00000000c1")]);
    assert_eq!(
        device.segment_color(4).map(|c| (c.r, c.g, c.b)),
        Some((0x8b, 0x00, 0xff)),
        "page 2 must still start at segment 4"
    );
}

/// Whether AWS IoT is used follows the topic that Govee hands out, not a list of
/// models.
#[test]
fn iot_support_follows_the_topic_not_the_model_list() {
    let mut device = Device::new("H601B", "15:25:60:74:F4:2B:2E:A4");
    assert!(
        device.resolve_quirk().is_none(),
        "this test is only meaningful for a model with no quirk"
    );

    // No metadata at all: nothing to publish to.
    assert!(!device.iot_api_supported());

    device.undoc_device_info = known_to_the_account(undoc_entry_without_wifi());
    assert!(device.has_iot_topic());
    assert!(device.iot_api_supported());
}

/// A device Govee gives no MQTT topic for cannot be reached over IoT no
/// matter what any list says -- the same test the IoT client applies before
/// it publishes.
#[test]
fn no_topic_means_no_iot() {
    let mut entry = undoc_entry_without_wifi();
    entry.device_ext.device_settings.topic = None;

    let mut device = Device::new("H6072", "FC:20:CF:33:34:38:29:59");
    device.undoc_device_info = known_to_the_account(entry);

    assert!(!device.has_iot_topic());
    assert!(!device.iot_api_supported());
}

/// A quirk keeps the power to veto, for models where IoT misbehaves even
/// though Govee hands them a topic.
#[test]
fn a_quirk_can_still_veto_iot() {
    let mut device = Device::new("H6176", "AA:BB:CC:DD:EE:FF:11:22");
    device.set_quirk(Some(Quirk {
        iot_api_supported: Some(false),
        ..Quirk::light()
    }));
    device.undoc_device_info = known_to_the_account(undoc_entry_without_wifi());

    assert!(device.has_iot_topic());
    assert!(!device.iot_api_supported());
}

#[test]
fn a_device_without_a_ble_address_stays_uncontrollable() {
    // No address means nothing to connect to, so exposing it would only
    // produce an entity that can never work.
    let mut entry = undoc_entry_without_wifi();
    entry.device_ext.device_settings.address = None;

    let mut device = Device::new("H6116", "not-a-mac");
    device.undoc_device_info = known_to_the_account(entry);

    assert_eq!(device.ble_address(), None);
    assert!(!device.is_ble_only_light());
    assert!(!device.is_controllable());
}

#[test]
fn a_first_ble_update_inherits_what_we_already_knew() {
    // A session that only switches a light on reads back power alone. The
    // attributes it did not ask about must keep their known values rather
    // than appear as measured zeroes.
    let mut device = Device::new("H601B", "AA:BB:CC:DD:EE:FF:11:22");
    device.set_lan_device_status(DeviceStatus {
        on: false,
        brightness: 80,
        color: DeviceColor { r: 1, g: 2, b: 3 },
        color_temperature_kelvin: 2700,
    });

    device.update_ble_device_status(|status: &mut DeviceStatus| status.on = true);

    let status = device.ble_device_status.as_ref().unwrap();
    assert!(status.on);
    assert_eq!(status.brightness, 80);
    assert_eq!(status.color, DeviceColor { r: 1, g: 2, b: 3 });
    assert_eq!(status.color_temperature_kelvin, 2700);
}

#[test]
fn ble_freshness_gates_the_post_control_poll() {
    let mut device = Device::new("H601B", "AA:BB:CC:DD:EE:FF:11:22");
    assert!(!device.has_fresh_ble_state(15));

    device.update_ble_device_status(|status: &mut DeviceStatus| status.on = true);
    assert!(device.has_fresh_ble_state(15));
    assert!(!device.has_fresh_ble_state(0));
}

#[test]
fn an_unchanged_ble_status_reports_no_change() {
    let mut device = Device::new("H6127", "AA:BB:CC:DD:EE:FF:11:22");
    assert!(device.update_ble_device_status(|status: &mut DeviceStatus| status.brightness = 42));
    assert!(!device.update_ble_device_status(|status: &mut DeviceStatus| status.brightness = 42));
}

// ---------------------------------------------------------------- further cases

const EARLY: Timestamp = Timestamp { secs: 10, nanos: 0 };
const LATE: Timestamp = Timestamp { secs: 20, nanos: 0 };

fn status(brightness: u8) -> DeviceStatus {
    DeviceStatus {
        on: true,
        brightness,
        color: DeviceColor { r: 1, g: 2, b: 3 },
        color_temperature_kelvin: 0,
    }
}

/// Of what several sources say, the newest counts.
#[test]
fn the_newest_source_wins() {
    let mut device = Device::new("H6072", "AA:BB:CC:DD:EE:FF:11:22");
    assert!(device.device_state().is_none());
    device.set_iot_device_status_at(status(20), LATE);
    device.set_lan_device_status_at(status(10), EARLY);
    assert_eq!(device.device_state().unwrap().brightness, 20);
    device.set_ble_device_status_at(status(30), LATE);
    device.set_lan_device_status_at(status(10), Timestamp { secs: 30, nanos: 0 });
    assert_eq!(device.device_state().unwrap().brightness, 10);
}

#[test]
fn the_platform_state_is_read_out_of_capabilities() {
    let mut device = Device::new("H6072", "AA:BB:CC:DD:EE:FF:11:22");
    let cap = |instance: &str, state| DeviceCapabilityState {
        instance: instance.to_string(),
        state,
    };
    device.set_http_device_state_at(
        HttpDeviceState {
            capabilities: vec![
                cap("online", CapabilityValue::Bool(true)),
                cap("powerSwitch", CapabilityValue::Integer(1)),
                cap("brightness", CapabilityValue::Integer(55)),
                cap("colorRgb", CapabilityValue::Integer(0x010203)),
                cap("colorTemperatureK", CapabilityValue::Integer(2700)),
                cap("sensor", CapabilityValue::Other),
            ],
        },
        EARLY,
    );
    let state = device.device_state().unwrap();
    assert!(state.on);
    assert_eq!(state.online, Some(true));
    assert_eq!(state.brightness, 55);
    assert_eq!(state.color, DeviceColor { r: 1, g: 2, b: 3 });
    assert_eq!(state.kelvin, 2700);
    assert_eq!(state.updated, EARLY);
}

/// A scene is the active one until the light shows another colour.
#[test]
fn a_scene_ends_with_its_colour() {
    let mut device = Device::new("H6072", "AA:BB:CC:DD:EE:FF:11:22");
    device.set_lan_device_status_at(status(10), EARLY);
    device.set_active_scene(Some("Sunrise"));
    device.set_lan_device_status_at(status(99), LATE);
    assert_eq!(
        device.device_state().unwrap().scene.as_deref(),
        Some("Sunrise")
    );
    device.set_lan_device_status_at(
        DeviceStatus {
            color: DeviceColor { r: 9, g: 9, b: 9 },
            ..status(99)
        },
        LATE,
    );
    assert_eq!(device.device_state().unwrap().scene, None);
}

#[test]
fn an_address_says_where_it_came_from() {
    let mut device = Device::new("H6072", "47:13:CF:00:00:00:00:25");
    assert_eq!(
        device.ble_address_with_source().unwrap().1,
        BleAddressSource::DerivedFromId
    );
    device.undoc_device_info = known_to_the_account(undoc_entry_without_wifi());
    assert_eq!(
        device.ble_address_with_source().unwrap().1,
        BleAddressSource::Metadata
    );
}

fn listed(device_type: DeviceType, segments: Option<(u32, u32)>) -> HttpDeviceInfo {
    HttpDeviceInfo {
        sku: "H6072".to_string(),
        device: "AA".to_string(),
        device_name: "Lamp".to_string(),
        device_type,
        capabilities: vec![DeviceCapability {
            instance: "powerSwitch".to_string(),
        }],
        rgb: true,
        brightness: true,
        color_temperature_range: Some((2200, 6500)),
        segmented_rgb: segments,
    }
}

#[test]
fn the_account_names_a_device_and_says_what_it_can_do() {
    let mut device = Device::new("H6072", "AA");
    device.set_http_device_info(listed(DeviceType::Light, Some((0, 8))));
    assert_eq!(device.govee_name(), Some("Lamp"));
    assert_eq!(device.name(), "Lamp");
    assert_eq!(device.room_name(), None);
    assert_eq!(device.get_color_temperature_range(), Some((2200, 6500)));
    assert!(device.supports_rgb() && device.supports_brightness());
    assert_eq!(device.segment_count(), Some(8));
    assert_eq!(
        device.get_light_power_toggle_instance_name(),
        Some("powerSwitch")
    );
    assert!(device.get_capability_by_instance("powerSwitch").is_some());
    assert!(device.get_capability_by_instance("other").is_none());
    assert!(device
        .get_state_capability_by_instance("powerSwitch")
        .is_none());
}

#[test]
fn a_kettle_that_is_on_is_read_every_minute() {
    let mut device = Device::new("H7173", "AA");
    device.set_http_device_info(listed(DeviceType::Kettle, None));
    assert_eq!(device.preferred_poll_interval(900), 900);
    device.set_iot_device_status_at(status(10), EARLY);
    assert_eq!(device.preferred_poll_interval(900), 60);
    assert_eq!(device.preferred_poll_interval(30), 30);
}

#[test]
fn an_unknown_model_on_the_lan_is_a_light() {
    let mut device = Device::new("H9999", "AA");
    assert!(device.resolve_quirk().is_none());
    device.set_lan_device(LanDevice {
        ip: "10.0.0.1".to_string(),
        sku: "H9999".to_string(),
        device: "AA".to_string(),
    });
    assert_eq!(device.ip_addr(), Some("10.0.0.1"));
    assert_eq!(
        device.resolve_quirk(),
        Some(Quirk::light().with_lan_api())
    );
    assert!(device.pollable_via_lan());
    // Unless the Platform API takes it for a light, it is not to be trusted.
    assert!(device.avoid_platform_api());
    device.set_http_device_info(listed(DeviceType::Light, None));
    assert!(!device.avoid_platform_api());
}

#[test]
fn a_colour_is_kept_for_the_next_run() {
    let mut device = Device::new("H6072", "AA:BB");
    assert!(device.remember_ble_color().is_none());
    device.set_ble_device_status_at(status(40), EARLY);
    let (key, kept) = device.remember_ble_color().unwrap();
    assert_eq!(key, "color/AA:BB");
    assert_eq!(kept, (1, 2, 3, 0));

    let mut fresh = Device::new("H6072", "AA:BB");
    assert!(!fresh.restore_remembered_ble_color(None));
    assert!(fresh.restore_remembered_ble_color(Some(kept)));
    assert_eq!(
        fresh.ble_status_seed().color,
        DeviceColor { r: 1, g: 2, b: 3 }
    );
}

#[test]
fn humidifiers_keep_a_parameter_for_each_mode() {
    let mut device = Device::new("H7160", "AA");
    device.set_target_humidity(60);
    device.set_humidifier_work_mode_and_param(1, 5);
    device.set_humidifier_work_mode_and_param(2, 6);
    assert_eq!(device.target_humidity_percent, Some(60));
    assert_eq!(device.humidifier_work_mode, Some(2));
    assert_eq!(device.humidifier_param_by_mode.get(&1), Some(&5));
    assert_eq!(device.humidifier_param_by_mode.get(&2), Some(&6));
}

#[test]
fn a_device_that_names_itself_segmented_is() {
    let mut device = Device::new("H6072", "AA");
    assert!(device.set_segment_mode_reported());
    assert!(!device.set_segment_mode_reported());
    assert!(device.is_segmented());
}
