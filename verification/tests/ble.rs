use govee::ble::codec::HUMIDIFIER;
use govee::ble::packets::NotifyHumidifierNightlightParams;
use govee::ble::{
    calculate_checksum, decode_notification, encode_for_generic_light, finish,
    query_device_brightness, query_device_color, query_device_power, query_segment_colors,
    Base64HexBytes, EncodeError, GoveeBlePacket, HumidifierAutoMode, InvalidBase64,
    InvalidSceneParam, Kelvin, NotifyDeviceBrightness, NotifyDeviceColor, NotifyDevicePower,
    NotifyHumidifierMode, NotifySegmentColors, NotifySegmentMode, OptionalKelvin, PacketBody,
    PacketManager, SegmentColor, SetDeviceBrightness, SetDeviceColorRgb,
    SetDeviceColorTemperature, SetDevicePower, SetHumidifierMode, SetHumidifierNightlightParams,
    SetSceneCode, SetSegmentBrightness, SetSegmentColorRgb, TargetHumidity, GENERIC_LIGHT,
};

#[test]
fn packet_manager() {
    let manager = PacketManager::new();
    assert_eq!(
        manager.decode_for_sku(
            "H7160",
            &[0x33, 0x05, 0x01, 0x20, 0, 0, 0, 0, 0, 0, 0, 0, 0, 0, 0, 0, 0, 0, 0, 23]
        ),
        GoveeBlePacket::SetHumidifierMode(SetHumidifierMode {
            mode: 1,
            param: 0x20
        })
    );

    assert_eq!(
        manager
            .encode_for_sku(
                "H7160",
                &SetHumidifierMode {
                    mode: 1,
                    param: 0x20
                }
            )
            .unwrap(),
        vec![0x33, 0x05, 0x01, 0x20, 0, 0, 0, 0, 0, 0, 0, 0, 0, 0, 0, 0, 0, 0, 0, 23]
    );
}

fn round_trip<T: PacketBody>(sku: &str, value: &T, expect: GoveeBlePacket) {
    let bytes = Base64HexBytes::encode_for_sku(sku, value).unwrap();
    let decoded = bytes.decode_for_sku(sku);
    assert_eq!(decoded, expect);
}

#[test]
fn basic_round_trip() {
    round_trip(
        "Generic:Light",
        &SetDevicePower { on: true },
        GoveeBlePacket::SetDevicePower(SetDevicePower { on: true }),
    );
    round_trip(
        "H7160",
        &SetHumidifierNightlightParams {
            on: true,
            r: 255,
            g: 69,
            b: 42,
            brightness: 100,
        },
        GoveeBlePacket::SetHumidifierNightlight(SetHumidifierNightlightParams {
            on: true,
            r: 255,
            g: 69,
            b: 42,
            brightness: 100,
        }),
    );
}

#[test]
fn scene_command() {
    const FOREST_SCENCE_PARAM: &str = "AyYAAQAKAgH/GQG0CgoCyBQF//8AAP//////AP//lP8AFAGWAAAAACMAAg8FAgH/FAH7AAAB+goEBP8AtP8AR///4/8AAAAAAAAAABoAAAABAgH/BQHIFBQC7hQBAP8AAAAAAAAAAA==";
    const FOREST_SCENE_CODE: u16 = 212;

    let command = SetSceneCode::new(FOREST_SCENE_CODE, FOREST_SCENCE_PARAM.to_string());

    let padded = command.encode().unwrap();

    let mut hex = String::new();
    for (idx, b) in padded.iter().enumerate() {
        if idx % 20 == 0 && !hex.is_empty() {
            hex.push('\n');
        } else if !hex.is_empty() {
            hex.push(' ');
        }
        hex.push_str(&format!("{b:02x}"));
    }

    assert_eq!(
        hex,
        "a3 00 01 07 02 03 26 00 01 00 0a 02 01 ff 19 01 b4 0a 0a d9
a3 01 02 c8 14 05 ff ff 00 00 ff ff ff ff ff 00 ff ff 94 12
a3 02 ff 00 14 01 96 00 00 00 00 23 00 02 0f 05 02 01 ff 0a
a3 03 14 01 fb 00 00 01 fa 0a 04 04 ff 00 b4 ff 00 47 ff b3
a3 04 ff e3 ff 00 00 00 00 00 00 00 00 1a 00 00 00 01 02 5d
a3 05 01 ff 05 01 c8 14 14 02 ee 14 01 00 ff 00 00 00 00 92
a3 ff 00 00 00 00 00 00 00 00 00 00 00 00 00 00 00 00 00 5c
33 05 04 d4 00 00 00 00 00 00 00 00 00 00 00 00 00 00 00 e6"
    );
}

fn hex(bytes: &Base64HexBytes) -> String {
    bytes.0 .0.iter().map(|b| format!("{b:02x}")).collect()
}

fn encode_light<T: PacketBody>(value: &T) -> String {
    hex(&Base64HexBytes::encode_for_sku(GENERIC_LIGHT, value).unwrap())
}

/// The power, brightness, RGB and 6500K expectations are frames captured from a
/// real device. The 2700K case is the same encoding at a second data point; only
/// the app's longer variant of it was captured.
#[test]
fn light_frames_match_captured_traffic() {
    assert_eq!(
        encode_light(&SetDevicePower { on: true }),
        "3301010000000000000000000000000000000033"
    );
    assert_eq!(
        encode_light(&SetDevicePower { on: false }),
        "3301000000000000000000000000000000000032"
    );
    assert_eq!(
        encode_light(&SetDeviceBrightness { percent: 100 }),
        "3304640000000000000000000000000000000053"
    );
    assert_eq!(
        encode_light(&SetDeviceColorRgb {
            r: 0x8b,
            g: 0x00,
            b: 0xff
        }),
        "33050d8b00ff000000000000000000000000004f"
    );
    assert_eq!(
        encode_light(&SetDeviceColorTemperature {
            kelvin: Kelvin::new(6500).unwrap()
        }),
        "33050dffffff19640000000000000000000000b9"
    );
    assert_eq!(
        encode_light(&SetDeviceColorTemperature {
            kelvin: Kelvin::new(2700).unwrap()
        }),
        "33050dffffff0a8c000000000000000000000042"
    );
}

#[test]
fn queries_match_captured_traffic() {
    assert_eq!(
        hex(&query_device_power()),
        "aa010000000000000000000000000000000000ab"
    );
    assert_eq!(
        hex(&query_device_brightness()),
        "aa040000000000000000000000000000000000ae"
    );
    assert_eq!(
        hex(&query_device_color()),
        "aa050100000000000000000000000000000000ae"
    );
}

#[test]
fn light_packets_round_trip() {
    round_trip(
        GENERIC_LIGHT,
        &SetDeviceBrightness { percent: 42 },
        GoveeBlePacket::SetDeviceBrightness(SetDeviceBrightness { percent: 42 }),
    );
    round_trip(
        GENERIC_LIGHT,
        &SetDeviceColorRgb { r: 1, g: 2, b: 254 },
        GoveeBlePacket::SetDeviceColorRgb(SetDeviceColorRgb { r: 1, g: 2, b: 254 }),
    );
    round_trip(
        GENERIC_LIGHT,
        &SetDeviceColorTemperature {
            kelvin: Kelvin::new(4800).unwrap(),
        },
        GoveeBlePacket::SetDeviceColorTemperature(SetDeviceColorTemperature {
            kelvin: Kelvin::new(4800).unwrap(),
        }),
    );
    round_trip(
        GENERIC_LIGHT,
        &NotifyDevicePower { on: true },
        GoveeBlePacket::NotifyDevicePower(NotifyDevicePower { on: true }),
    );
    round_trip(
        GENERIC_LIGHT,
        &NotifyDeviceBrightness { percent: 7 },
        GoveeBlePacket::NotifyDeviceBrightness(NotifyDeviceBrightness { percent: 7 }),
    );
    round_trip(
        GENERIC_LIGHT,
        &NotifyDeviceColor {
            mode: 1,
            r: 10,
            g: 20,
            b: 30,
            kelvin: OptionalKelvin(0),
        },
        GoveeBlePacket::NotifyDeviceColor(NotifyDeviceColor {
            mode: 1,
            r: 10,
            g: 20,
            b: 30,
            kelvin: OptionalKelvin(0),
        }),
    );
}

/// A white RGB frame and a colour temperature frame share the same first six
/// bytes. The only thing telling them apart is the Kelvin field, so a white
/// RGB command must not come back as a colour temperature.
#[test]
fn white_rgb_is_not_mistaken_for_colour_temperature() {
    round_trip(
        GENERIC_LIGHT,
        &SetDeviceColorRgb {
            r: 0xff,
            g: 0xff,
            b: 0xff,
        },
        GoveeBlePacket::SetDeviceColorRgb(SetDeviceColorRgb {
            r: 0xff,
            g: 0xff,
            b: 0xff,
        }),
    );
}

#[test]
fn zero_kelvin_is_rejected() {
    assert!(Kelvin::new(0).is_err());
}

/// We control the frames we send, but not what a device sends back. A status
/// notification carrying unexpected trailing data must still be understood.
#[test]
fn notification_tolerates_trailing_bytes() {
    let mut frame = vec![0xaa, 0x05, 0x01, 0x8b, 0x00, 0xff, 0x12, 0xc0];
    frame.resize(19, 0);
    frame[18] = 0x42;
    frame.push(calculate_checksum(&frame));

    assert_eq!(
        PacketManager::new().decode_for_sku(GENERIC_LIGHT, &frame),
        GoveeBlePacket::NotifyDeviceColor(NotifyDeviceColor {
            mode: 0x01,
            r: 0x8b,
            g: 0x00,
            b: 0xff,
            kelvin: OptionalKelvin(4800),
        })
    );
}

#[test]
fn notification_with_a_bad_checksum_is_rejected() {
    let mut frame = vec![0xaa, 0x01, 0x01];
    frame.resize(19, 0);
    frame.push(calculate_checksum(&frame) ^ 0xff);

    assert!(matches!(
        PacketManager::new().decode_for_sku(GENERIC_LIGHT, &frame),
        GoveeBlePacket::Generic(_)
    ));
}

#[test]
fn optional_kelvin_distinguishes_rgb_from_white() {
    assert_eq!(OptionalKelvin(0).get(), None);
    assert_eq!(OptionalKelvin(2700).get(), Some(2700));
}

// ------------------------------------------------------------- further packets

#[test]
fn every_packet_comes_back_as_it_was() {
    round_trip(
        HUMIDIFIER,
        &NotifyHumidifierMode { mode: 3, param: 9 },
        GoveeBlePacket::NotifyHumidifierMode(NotifyHumidifierMode { mode: 3, param: 9 }),
    );
    let nightlight = NotifyHumidifierNightlightParams {
        on: true,
        r: 1,
        g: 2,
        b: 3,
        brightness: 4,
    };
    round_trip(
        HUMIDIFIER,
        &nightlight,
        GoveeBlePacket::NotifyHumidifierNightlight(nightlight),
    );
    let auto = HumidifierAutoMode {
        target_humidity: TargetHumidity::from_percent(55),
    };
    round_trip(
        HUMIDIFIER,
        &auto,
        GoveeBlePacket::NotifyHumidifierAutoMode(auto),
    );
    let colour = SetSegmentColorRgb::for_segments(&[0, 9, 55], (1, 2, 3)).unwrap();
    round_trip(
        GENERIC_LIGHT,
        &colour,
        GoveeBlePacket::SetSegmentColorRgb(
            SetSegmentColorRgb::for_segments(&[55, 9, 0], (1, 2, 3)).unwrap(),
        ),
    );
    let dim = SetSegmentBrightness::for_segments(&[1, 2], 40).unwrap();
    round_trip(
        GENERIC_LIGHT,
        &dim,
        GoveeBlePacket::SetSegmentBrightness(
            SetSegmentBrightness::for_segments(&[1, 2], 40).unwrap(),
        ),
    );
    let lit = SegmentColor {
        brightness: 50,
        r: 9,
        g: 8,
        b: 7,
    };
    let page = NotifySegmentColors {
        page: 2,
        segments: [lit, lit, lit, SegmentColor::default()],
    };
    round_trip(
        GENERIC_LIGHT,
        &page,
        GoveeBlePacket::NotifySegmentColors(page),
    );
    let mode = NotifySegmentMode { value: 1 };
    round_trip(
        GENERIC_LIGHT,
        &mode,
        GoveeBlePacket::NotifySegmentMode(mode),
    );
}

#[test]
fn a_reported_nightlight_becomes_a_command() {
    let reported = NotifyHumidifierNightlightParams {
        on: true,
        r: 1,
        g: 2,
        b: 3,
        brightness: 40,
    };
    assert_eq!(
        SetHumidifierNightlightParams::from(reported),
        SetHumidifierNightlightParams {
            on: true,
            r: 1,
            g: 2,
            b: 3,
            brightness: 40,
        }
    );
}

#[test]
fn humidity_is_a_percentage_with_the_top_bit_set() {
    let target = TargetHumidity::from_percent(55);
    assert_eq!(target.as_percent(), 55);
    assert_eq!(u8::from(target), 55 + 128);
    assert_eq!(target.into_inner(), 55 + 128);
}

#[test]
fn segments_are_named_by_a_little_endian_mask() {
    let command = SetSegmentColorRgb::for_segments(&[0, 9, 55], (1, 2, 3)).unwrap();
    assert_eq!(
        hex(&Base64HexBytes::encode_for_sku(GENERIC_LIGHT, &command).unwrap()),
        "33051501010203000000000001020000000080a1"
    );
    assert_eq!(
        SetSegmentColorRgb::for_segments(&[0, 56], (1, 2, 3))
            .unwrap_err()
            .segment,
        56
    );
    assert_eq!(
        SetSegmentBrightness::for_segments(&[99], 3)
            .unwrap_err()
            .segment,
        99
    );
}

#[test]
fn a_page_of_segments_is_asked_for_by_number() {
    assert_eq!(
        hex(&query_segment_colors(3)),
        "aaa503000000000000000000000000000000000c"
    );
}

/// The last byte of a frame makes all twenty of them cancel out.
#[test]
fn a_finished_frame_is_valid() {
    let frame = finish(vec![1, 2, 4]);
    assert_eq!(frame.len(), 20);
    assert_eq!(frame[19], 7);
    assert_eq!(calculate_checksum(&frame), 0);
    assert_eq!(calculate_checksum(&[0xf0, 0x0f, 0x01]), 0xfe);
    // A frame has no room for more than nineteen bytes.
    assert_eq!(finish(vec![1; 21]).len(), 20);
}

#[test]
fn a_model_without_the_packet_is_refused() {
    assert_eq!(
        PacketManager::new().encode_for_sku("H7160", &SetDevicePower { on: true }),
        Err(EncodeError::NoCodec)
    );
    assert_eq!(
        PacketManager::new().decode_for_sku("H9999", &[0x33, 0x01]),
        GoveeBlePacket::Generic(govee::ble::HexBytes(vec![0x33, 0x01]))
    );
}

#[test]
fn scene_data_that_is_no_base64_is_refused() {
    let command = SetSceneCode::new(1, "%".to_string());
    assert_eq!(command.encode(), Err(InvalidSceneParam));
    assert_eq!(command.encode_if_it_fits(), Some(Err(InvalidSceneParam)));
    assert_eq!(
        Base64HexBytes::encode_for_sku_if_it_fits(GENERIC_LIGHT, &command)
            .unwrap()
            .unwrap_err(),
        EncodeError::InvalidSceneParam
    );
}

#[test]
fn scene_data_that_needs_too_many_lines_does_not_fit() {
    let longest = data_encoding::BASE64.encode(&[0x11; 4332]);
    let command = SetSceneCode::new(1, longest);
    assert!(command.check_data_fits());
    let bytes = command.encode_if_it_fits().unwrap().unwrap();
    assert_eq!(bytes.len() % 20, 0);
    for line in bytes.chunks(20) {
        assert_eq!(calculate_checksum(line), 0);
    }

    let too_long = data_encoding::BASE64.encode(&[0x11; 4333]);
    let command = SetSceneCode::new(1, too_long);
    assert!(!command.check_data_fits());
    assert_eq!(command.encode_if_it_fits(), None);
    assert!(Base64HexBytes::encode_for_sku_if_it_fits(GENERIC_LIGHT, &command).is_none());
    assert!(PacketManager::new()
        .encode_for_sku_if_it_fits(GENERIC_LIGHT, &command)
        .is_none());
}

#[test]
fn frames_travel_as_base64_texts_of_twenty_bytes() {
    let power = query_device_power();
    assert_eq!(power.base64(), ["qgEAAAAAAAAAAAAAAAAAAAAAAKs="]);
    let two = Base64HexBytes::from_frames(vec![0; 21]);
    assert_eq!(two.base64(), ["AAAAAAAAAAAAAAAAAAAAAAAAAAA=", "AA=="]);
    let back = Base64HexBytes::from_base64("qgEAAAAAAAAAAAAAAAAAAAAAAKs=").unwrap();
    assert_eq!(back.into_bytes(), power.into_bytes());
    assert_eq!(
        Base64HexBytes::from_base64("dfdebb7e6883b26be49d8dfa109").unwrap_err(),
        InvalidBase64
    );
}

#[test]
fn light_commands_leave_as_raw_bytes() {
    assert_eq!(
        encode_for_generic_light(&SetDevicePower { on: true }).unwrap(),
        finish(vec![0x33, 0x01, 0x01])
    );
    assert_eq!(
        encode_for_generic_light(&SetHumidifierMode { mode: 1, param: 2 }),
        Err(EncodeError::NoCodec)
    );
    assert_eq!(
        decode_notification(GENERIC_LIGHT, &finish(vec![0xaa, 0x01, 0x01])),
        GoveeBlePacket::NotifyDevicePower(NotifyDevicePower { on: true })
    );
}
