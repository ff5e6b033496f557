use govee::ble::SegmentColor;
use govee::lan_api::DeviceColor;
use govee::service::ble_bridge::{BleBridge, BridgeStatus};
use govee::service::ble_scheduler::{BleScheduler, BleSchedulerConfig};
use govee::service::device::{Device, UndocDeviceInfo};
use govee::service::segments::{
    platform_target, remember_what_we_asked_for, Channel, Pending, Queued, Route, SegmentBatcher,
    SegmentRequest,
};
use govee::undoc_api::{DeviceEntry, DeviceEntryExt, DeviceSettings};

fn color(r: u8, g: u8, b: u8) -> DeviceColor {
    DeviceColor { r, g, b }
}

#[test]
fn segments_sharing_a_colour_travel_together() {
    // What a scene over a Govee floor lamp looks like: two colours across four
    // segments, in two requests.
    let mut pending = Pending::default();
    pending.add(0, None, Some((0, 0, 255)));
    pending.add(1, None, Some((0, 0, 255)));
    pending.add(6, None, Some((255, 0, 0)));
    pending.add(7, None, Some((255, 0, 0)));

    assert_eq!(pending.request_count(), 2);
    assert_eq!(pending.rgb.get(color(0, 0, 255)), Some(&vec![0, 1]));
    assert_eq!(pending.rgb.get(color(255, 0, 0)), Some(&vec![6, 7]));
}

#[test]
fn colour_and_brightness_are_separate_requests() {
    // They are different capabilities, so they cannot share one call even
    // when they target the same segment.
    let mut pending = Pending::default();
    pending.add(0, Some(50), Some((255, 255, 255)));

    assert_eq!(pending.request_count(), 2);
}

/// One encoder feeds both channels: the bytes that go out over the radio
/// are the same bytes that go out base64-wrapped over AWS IoT.
#[test]
fn each_distinct_colour_becomes_one_frame() {
    let mut pending = Pending::default();
    pending.add(0, None, Some((0, 0, 255)));
    pending.add(1, None, Some((0, 0, 255)));
    pending.add(5, None, Some((255, 255, 255)));

    let frames = pending.encode().unwrap();
    assert_eq!(frames.len(), 2, "one frame per distinct colour");

    // Both are the segment colour command, and every mask bit set is one
    // of the segments that asked for that colour.
    for frame in &frames {
        assert_eq!(&frame[..4], &[0x33, 0x05, 0x15, 0x01]);
        let colour = (frame[4], frame[5], frame[6]);
        let mask = frame[12];
        let wanting = pending
            .rgb
            .get(color(colour.0, colour.1, colour.2))
            .unwrap();
        let expected: u8 = wanting.iter().map(|n| 1u8 << n).sum();
        assert_eq!(mask, expected, "mask for {colour:?}");
    }
}

/// Brightness is a frame too, and rides the same message.
#[test]
fn colour_and_brightness_ride_one_message() {
    let mut pending = Pending::default();
    pending.add(0, Some(40), Some((255, 0, 0)));
    pending.add(1, Some(40), None);

    let frames = pending.encode().unwrap();
    assert_eq!(frames.len(), 2, "one colour frame and one brightness frame");

    let colour = frames.iter().find(|f| f[3] == 0x01).expect("colour frame");
    let bright = frames
        .iter()
        .find(|f| f[3] == 0x02)
        .expect("brightness frame");

    // The colour names segment 0 only, with the mask at byte 12.
    assert_eq!((colour[4], colour[5], colour[6]), (255, 0, 0));
    assert_eq!(colour[12], 0b0000_0001);

    // The brightness names both, with the mask right behind the value.
    assert_eq!(bright[4], 40);
    assert_eq!(bright[5], 0b0000_0011);

    assert_eq!(pending.touched().len(), 3);
}

/// What the Platform API would cost, when it is reached at all.
///
/// It is not for a device with an AWS IoT or Bluetooth path: colour and
/// brightness are both frames, they ride one message, and they travel together
/// or not at all. This counts the fallback.
#[test]
fn the_platform_fallback_costs_one_request_per_distinct_value() {
    let mut pending = Pending::default();
    pending.add(0, Some(50), Some((255, 0, 0)));
    pending.add(1, None, Some((255, 0, 0)));
    pending.add(2, None, Some((0, 0, 255)));

    // Two colours plus one brightness, over four segment changes.
    assert_eq!(pending.platform_only(), (3, 4));
}

#[test]
fn one_segment_still_costs_one_request() {
    let mut pending = Pending::default();
    pending.add(3, None, Some((1, 2, 3)));

    assert_eq!(pending.request_count(), 1);
    assert_eq!(pending.rgb.get(color(1, 2, 3)), Some(&vec![3]));
}

// ---------------------------------------------------------------- further cases

fn reachable_light() -> Device {
    let mut device = Device::new("H6072", "AA:BB:CC:DD:EE:FF:11:22");
    device.undoc_device_info = Some(UndocDeviceInfo {
        room_name: None,
        entry: DeviceEntry {
            sku: "H6072".to_string(),
            device: "AA:BB:CC:DD:EE:FF:11:22".to_string(),
            device_name: "lamp".to_string(),
            group_id: 0,
            device_ext: DeviceEntryExt {
                device_settings: DeviceSettings {
                    topic: Some("GD/x".to_string()),
                    address: None,
                    wifi_name: Some("net".to_string()),
                },
            },
        },
    });
    device
}

#[test]
fn both_channels_carry_the_same_bytes() {
    let mut pending = Pending::default();
    pending.add(0, Some(40), Some((255, 0, 0)));
    let device = reachable_light();
    let frames = pending.encode().unwrap();
    match pending.send_via_iot(true, &device) {
        Channel::Send(texts) => {
            let wrapped: Vec<String> = frames
                .iter()
                .map(|f| data_encoding::BASE64.encode(f))
                .collect();
            assert_eq!(texts, wrapped);
        }
        other => panic!("{other:?}"),
    }
    assert!(matches!(
        pending.send_via_iot(false, &device),
        Channel::Declined
    ));
    assert!(matches!(
        Pending::default().send_via_iot(true, &device),
        Channel::NothingToSend
    ));

    let mut scheduler = BleScheduler::new(
        BleBridge::new("p".to_string()),
        BleSchedulerConfig::default(),
    );
    scheduler.bridge.set_status(BridgeStatus {
        online: true,
        ..BridgeStatus::default()
    });
    match pending.send_via_ble(&Some(scheduler), &device, 0) {
        Channel::Send(session) => {
            assert_eq!(session.address, "CC:DD:EE:FF:11:22");
            assert_eq!(session.frames, frames);
            assert_eq!(session.touched, vec![0, 0]);
        }
        other => panic!("{other:?}"),
    }
    assert!(matches!(
        pending.send_via_ble(&None, &device, 0),
        Channel::Declined
    ));
}

#[test]
fn a_segment_without_a_place_in_the_mask_fails_the_batch() {
    let mut pending = Pending::default();
    pending.add(56, None, Some((1, 2, 3)));
    assert_eq!(pending.encode().unwrap_err().segment, 56);
    match pending.send_via_iot(true, &reachable_light()) {
        Channel::Failed(err) => assert_eq!(err.segment, 56),
        other => panic!("{other:?}"),
    }
}

#[test]
fn the_platform_api_is_asked_group_by_group() {
    let mut pending = Pending::default();
    pending.add(0, Some(50), Some((255, 0, 0)));
    pending.add(1, None, Some((255, 0, 0)));
    assert_eq!(
        pending.platform_requests(),
        vec![
            SegmentRequest::Brightness {
                segments: vec![0],
                percent: 50
            },
            SegmentRequest::Color {
                segments: vec![0, 1],
                color: color(255, 0, 0)
            },
        ]
    );
}

#[test]
fn what_was_asked_for_is_remembered_for_known_segments() {
    let mut device = Device::new("H6072", "AA:BB:CC:DD:EE:FF:11:22");
    device.segment_colors.insert(
        0,
        SegmentColor {
            brightness: 7,
            r: 0,
            g: 0,
            b: 0,
        },
    );
    let mut pending = Pending::default();
    pending.add(0, None, Some((1, 2, 3)));
    pending.add(5, None, Some((1, 2, 3)));
    assert!(remember_what_we_asked_for(&mut device, &pending));
    assert!(!remember_what_we_asked_for(&mut device, &pending));
    assert_eq!(
        device.segment_color(0),
        Some(SegmentColor {
            brightness: 7,
            r: 1,
            g: 2,
            b: 3
        })
    );
    assert_eq!(device.segment_color(5), None);
}

#[test]
fn changes_gather_until_the_window_is_over() {
    let mut batcher = SegmentBatcher::default();
    assert_eq!(batcher.apply("light", 0, None, None, 1), Queued::Nothing);
    assert_eq!(
        batcher.apply("light", 0, Some(4), None, 1),
        Queued::WaitsAndFlushes
    );
    assert_eq!(
        batcher.apply("light", 1, None, Some((1, 2, 3)), 2),
        Queued::Waits
    );
    assert_eq!(
        batcher.apply("other", 1, None, Some((1, 2, 3)), 3),
        Queued::WaitsAndFlushes
    );
    let batch = batcher.flush_after_window("light").unwrap();
    assert_eq!(batch.waiters, vec![1, 2]);
    assert_eq!(batch.request_count(), 2);
    let again = batcher.flush_after_window("light").unwrap();
    assert_eq!(again.request_count(), 0);
    assert!(again.waiters.is_empty());
    assert!(batcher.flush_after_window("unheard of").is_none());
    assert_eq!(
        batcher.apply("light", 0, Some(4), None, 4),
        Queued::WaitsAndFlushes
    );
}

#[test]
fn a_batch_falls_back_from_channel_to_channel() {
    assert_eq!(Route::Iot.next(true), Route::Done);
    assert_eq!(Route::Iot.next(false), Route::Ble);
    assert_eq!(Route::Ble.next(false), Route::Platform);
    assert_eq!(Route::Platform.next(false), Route::Done);
    let device = Device::new("H6072", "AA:BB:CC:DD:EE:FF:11:22");
    assert_eq!(
        platform_target(false, &device).unwrap_err(),
        format!("set segments for {}: Platform API unavailable", device.label())
    );
    assert_eq!(
        platform_target(true, &device).unwrap_err(),
        format!("set segments for {}: no HTTP device info", device.label())
    );
}
