use govee::clock::Timestamp;
use govee::commands::serve::{
    ble_config, enumerate_devices_via_platform_api, enumerate_devices_via_undo_api,
    poll_single_device, poll_turns, poll_via_ble, report_ble_exclusions, report_derived_ble_addresses,
    restore_remembered_segments, segments_key, startup_warning, BlePoll, CloudPoll, PollPlan,
    ServeCommand, StartupWarning,
};
use govee::commands::undoc::{
    encode_frames, find_device, find_one_click, parse_hex, FrameError,
};
use govee::lan_api::{DeviceStatus, LanDevice};
use govee::platform_api::{DeviceType, HttpDeviceInfo};
use govee::service::ble_bridge::{BleBridge, BridgeStatus};
use govee::service::ble_scheduler::{
    BleAddressOverrides, BleExclusions, BleScheduler, BleSchedulerConfig,
};
use govee::service::device::{Device, UndocDeviceInfo};
use govee::service::poll::PollIntervals;
use govee::service::quirks::Quirk;
use govee::service::state::State;
use govee::service::transport::TransportId::{Ble, Iot, Lan, Platform};
use govee::text_map::TextMap;
use govee::undoc_api::{
    DeviceEntry, DeviceEntryExt, DeviceSettings, GroupEntry, ParsedOneClick,
};

const LAMP: &str = "AA:BB:CC:DD:EE:FF:42:2A";

fn at(secs: i64) -> Timestamp {
    Timestamp { secs, nanos: 0 }
}

fn entry(device: &str, topic: Option<&str>, wifi: Option<&str>, group_id: u64) -> DeviceEntry {
    DeviceEntry {
        sku: "H6072".to_string(),
        device: device.to_string(),
        device_name: "Floor Lamp".to_string(),
        group_id,
        device_ext: DeviceEntryExt {
            device_settings: DeviceSettings {
                topic: topic.map(|t| t.to_string()),
                address: None,
                wifi_name: wifi.map(|w| w.to_string()),
            },
        },
    }
}

fn info(device: &str, device_type: DeviceType) -> HttpDeviceInfo {
    HttpDeviceInfo {
        sku: "H6072".to_string(),
        device: device.to_string(),
        device_name: "Floor Lamp".to_string(),
        device_type,
        capabilities: vec![],
        rgb: true,
        brightness: true,
        color_temperature_range: None,
        segmented_rgb: None,
    }
}

fn known(entry: DeviceEntry) -> Option<UndocDeviceInfo> {
    Some(UndocDeviceInfo {
        room_name: None,
        entry,
    })
}

fn on_the_lan(device: &mut Device) {
    device.set_lan_device(LanDevice {
        ip: "10.0.0.7".to_string(),
        sku: device.sku.clone(),
        device: device.id.clone(),
    });
}

// ---------------------------------------------------------------------- polling

#[test]
fn a_bluetooth_only_device_is_polled_over_bluetooth() {
    let mut device = Device::new("H6116", LAMP);
    device.undoc_device_info = known(entry(LAMP, None, None, 0));
    assert_eq!(
        poll_single_device(&device, &PollIntervals::default(), at(0), true),
        PollPlan::Bluetooth { interval: 900 }
    );
}

fn network(lan: bool, cloud: CloudPoll) -> PollPlan {
    PollPlan::Network { lan, cloud }
}

#[test]
fn a_light_with_a_topic_is_asked_over_aws_iot_first() {
    let mut device = Device::new("H6072", LAMP);
    device.undoc_device_info = known(entry(LAMP, Some("GD/x"), Some("net"), 0));
    let intervals = PollIntervals::default();
    assert_eq!(
        poll_single_device(&device, &intervals, at(1000), true),
        network(false, CloudPoll::IotThenPlatform)
    );
    device.last_polled = Some(at(100));
    assert_eq!(
        poll_single_device(&device, &intervals, at(1000), true),
        network(false, CloudPoll::Nothing)
    );
    assert_eq!(
        poll_single_device(&device, &intervals, at(1001), true),
        network(false, CloudPoll::IotThenPlatform)
    );
    // A state that is fresh needs no request.
    device.set_iot_device_status_at(DeviceStatus::default(), at(500));
    assert_eq!(
        poll_single_device(&device, &intervals, at(1001), true),
        network(false, CloudPoll::Nothing)
    );
    device.set_iot_device_status_at(DeviceStatus::default(), at(100));
    assert_eq!(
        poll_single_device(&device, &intervals, at(1001), true),
        network(false, CloudPoll::IotThenPlatform)
    );
}

#[test]
fn the_lan_spares_the_clouds() {
    let mut device = Device::new("H6072", LAMP);
    device.undoc_device_info = known(entry(LAMP, Some("GD/x"), Some("net"), 0));
    on_the_lan(&mut device);
    let intervals = PollIntervals::default();
    assert_eq!(
        poll_single_device(&device, &intervals, at(1000), true),
        network(true, CloudPoll::Nothing)
    );
    assert_eq!(
        poll_single_device(&device, &intervals, at(1000), false),
        network(false, CloudPoll::Nothing)
    );
    device.set_lan_device_status_at(DeviceStatus::default(), at(970));
    assert_eq!(
        poll_single_device(&device, &intervals, at(1000), true),
        network(false, CloudPoll::Nothing)
    );
    assert_eq!(
        poll_single_device(&device, &intervals, at(1001), true),
        network(true, CloudPoll::Nothing)
    );
}

#[test]
fn without_a_topic_the_platform_api_is_asked() {
    let device = Device::new("H6072", LAMP);
    assert_eq!(
        poll_single_device(&device, &PollIntervals::default(), at(1000), true),
        network(false, CloudPoll::Platform)
    );
    let intervals = PollIntervals {
        platform: 50,
        ..Default::default()
    };
    let mut polled = Device::new("H6072", LAMP);
    polled.last_polled = Some(at(900));
    assert_eq!(
        poll_single_device(&polled, &intervals, at(951), true),
        network(false, CloudPoll::Platform)
    );
    assert_eq!(
        poll_single_device(&polled, &intervals, at(950), true),
        network(false, CloudPoll::Nothing)
    );
}

#[test]
fn sources_are_asked_in_turn() {
    let mut device = Device::new("H6072", LAMP);
    device.undoc_device_info = known(entry(LAMP, Some("GD/x"), Some("net"), 0));
    device.set_http_device_info(info(LAMP, DeviceType::Light));
    let cloud = CloudPoll::IotThenPlatform;
    assert_eq!(
        poll_turns(cloud, None, true, &device),
        vec![Iot, Platform, Ble]
    );
    // The broker is gone.
    assert_eq!(
        poll_turns(cloud, None, false, &device),
        vec![Platform, Ble]
    );
    // A prefix promotes and removes nothing.
    assert_eq!(
        poll_turns(cloud, Some(&[Ble, Lan]), true, &device),
        vec![Ble, Iot, Platform]
    );
    assert_eq!(poll_turns(CloudPoll::Nothing, None, true, &device), vec![]);
}

fn state_with_bluetooth() -> State {
    let mut scheduler = BleScheduler::new(
        BleBridge::new("p".to_string()),
        BleSchedulerConfig::default(),
    );
    scheduler.bridge.set_status(BridgeStatus {
        online: true,
        ..BridgeStatus::default()
    });
    let mut state = State::new();
    state.set_ble_scheduler(scheduler);
    state
}

#[test]
fn a_bluetooth_poll_is_recorded_before_it_is_made() {
    let mut state = state_with_bluetooth();
    let mut device = Device::new("H6116", LAMP);
    assert_eq!(
        poll_via_ble(&mut state, &device, at(1000), 900, 0),
        Some(BlePoll {
            address: "CC:DD:EE:FF:42:2A".to_string(),
            segments: None
        })
    );
    assert_eq!(
        state.device_by_id(LAMP).unwrap().last_polled,
        Some(at(1000))
    );
    device.last_polled = Some(at(1000));
    assert_eq!(
        poll_via_ble(&mut state, &device, at(1900), 900, 0),
        None
    );
    device.set_remembered_segment_count(8);
    assert_eq!(
        poll_via_ble(&mut state, &device, at(1901), 900, 0)
            .unwrap()
            .segments,
        Some(8)
    );
    // Without Bluetooth, without an address, or for another kind of device,
    // nothing is read.
    assert_eq!(
        poll_via_ble(&mut State::new(), &device, at(1901), 900, 0),
        None
    );
    let nameless = Device::new("H6116", "not-a-mac");
    assert_eq!(
        poll_via_ble(&mut state, &nameless, at(1901), 900, 0),
        None
    );
    device.set_http_device_info(info(LAMP, DeviceType::Humidifier));
    assert_eq!(
        poll_via_ble(&mut state, &device, at(1901), 900, 0),
        None
    );
}

// -------------------------------------------------------------------- Bluetooth

#[test]
fn guessed_addresses_are_reported() {
    let guessed = Device::new("H6072", LAMP);
    let nameless = Device::new("H6072", "not-a-mac");
    let devices = vec![&guessed, &nameless];
    let notes = report_derived_ble_addresses(&devices, &BleAddressOverrides::default());
    assert_eq!(notes.len(), 1);
    assert_eq!(notes[0].label, guessed.label());
    assert_eq!(notes[0].address, "CC:DD:EE:FF:42:2A");
    let overrides =
        BleAddressOverrides::parse("AA:BB:CC:DD:EE:FF:42:2A=CC:DD:EE:FF:42:2B").unwrap();
    assert!(report_derived_ble_addresses(&devices, &overrides).is_empty());
}

#[test]
fn exclusions_say_what_they_matched() {
    let one = Device::new("H6072", LAMP);
    let two = Device::new("H6072", "BB");
    let reports = report_ble_exclusions(&vec![&one, &two], &BleExclusions::parse("h6072, typo"));
    assert_eq!(reports.len(), 2);
    assert_eq!(reports[0].entry, "h6072");
    assert_eq!(reports[0].matched, vec![one.label(), two.label()]);
    assert_eq!(reports[1].entry, "typo");
    assert!(reports[1].matched.is_empty());
}

#[test]
fn the_bluetooth_configuration_is_put_together() {
    let config = ble_config(Some("h6072"), Some("a=b"), Some(0)).unwrap();
    assert_eq!(config.exclusions.entries(), ["h6072"]);
    assert_eq!(config.address_overrides.get("A"), Some("B"));
    assert_eq!(config.max_concurrent, 1);
    assert_eq!(ble_config(None, None, Some(4)).unwrap().max_concurrent, 4);
    assert_eq!(
        ble_config(None, Some("x"), None).err().unwrap().entry,
        "x"
    );
}

#[test]
fn segment_counts_are_restored() {
    let mut state = State::new();
    state.device_mut("H6054", "a");
    state.device_mut("H6054", "b");
    state.device_mut("H6054", "c");
    let mut kept = TextMap::new();
    kept.insert("a".to_string(), 12u32);
    kept.insert("b".to_string(), 0u32);
    kept.insert("z".to_string(), 9u32);
    restore_remembered_segments(&mut state, &kept);
    let count = |id: &str| state.device_by_id(id).unwrap().remembered_segment_count;
    assert_eq!(count("a"), Some(12));
    assert_eq!(count("b"), None);
    assert_eq!(count("c"), None);
    assert!(state.device_by_id("z").is_none());
    assert_eq!(segments_key("a"), "segments/a");
}

// ------------------------------------------------------------------ enumeration

#[test]
fn a_listed_device_is_known() {
    let mut state = State::new();
    state.device_mut("H6072", "a").set_target_humidity(7);
    state.device_mut("H6072", "x");
    enumerate_devices_via_platform_api(
        &mut state,
        vec![
            info("a", DeviceType::Light),
            info("b", DeviceType::Light),
            info("a", DeviceType::Kettle),
        ],
    );
    let a = state.device_by_id("a").unwrap();
    assert_eq!(a.target_humidity_percent, Some(7));
    assert_eq!(
        a.http_device_info,
        Some(info("a", DeviceType::Kettle)),
        "the last word counts"
    );
    assert!(a.last_http_device_update.is_some());
    assert!(state.device_by_id("b").unwrap().http_device_info.is_some());
    assert!(state.device_by_id("x").unwrap().http_device_info.is_none());
}

#[test]
fn a_device_is_in_the_room_of_its_group() {
    let mut state = State::new();
    let group = |group_id, name: &str| GroupEntry {
        group_id,
        group_name: name.to_string(),
    };
    let groups = vec![group(1, "Hall"), group(2, "Loft"), group(1, "Kitchen")];
    enumerate_devices_via_undo_api(
        &mut state,
        vec![
            entry("a", None, None, 1),
            entry("b", None, None, 2),
            entry("c", None, None, 3),
        ],
        &groups,
    );
    let room = |id: &str| state.device_by_id(id).unwrap().room_name();
    assert_eq!(room("a"), Some("Kitchen"));
    assert_eq!(room("b"), Some("Loft"));
    assert_eq!(room("c"), None);
}

#[test]
fn silence_on_the_lan_is_pointed_out() {
    let mut device = Device::new("H6072", LAMP);
    assert_eq!(
        startup_warning(&device, true),
        StartupWarning::UnknownType
    );
    assert_eq!(
        startup_warning(&device, false),
        StartupWarning::UnknownTypeWithoutKey
    );
    device.set_quirk(Some(Quirk::light().with_lan_api()));
    assert_eq!(startup_warning(&device, true), StartupWarning::LanSilent);
    on_the_lan(&mut device);
    assert_eq!(startup_warning(&device, true), StartupWarning::Nothing);
    let mut listed = Device::new("H6072", LAMP);
    listed.set_http_device_info(info(LAMP, DeviceType::Light));
    assert_eq!(startup_warning(&listed, false), StartupWarning::Nothing);
    assert_eq!(ServeCommand::default().http_port, 8056);
}

// ------------------------------------------------------------------------- undoc

#[test]
fn hex_is_read_with_or_without_separators() {
    assert_eq!(
        parse_hex("33a501640000ff").unwrap(),
        vec![0x33, 0xa5, 0x01, 0x64, 0x00, 0x00, 0xff]
    );
    assert_eq!(parse_hex("33:A5 0x1-").unwrap(), vec![0x33, 0xa5, 0x01]);
    assert_eq!(
        parse_hex("abc").unwrap_err(),
        "'abc' has an odd number of hex digits"
    );
    assert_eq!(parse_hex("").unwrap(), Vec::<u8>::new());
}

#[test]
fn frames_are_padded_and_checksummed() {
    let frames = vec!["aa01".to_string(), "aa 04".to_string()];
    assert_eq!(
        encode_frames(&frames).unwrap(),
        [
            "qgEAAAAAAAAAAAAAAAAAAAAAAKs=",
            "qgQAAAAAAAAAAAAAAAAAAAAAAK4="
        ]
    );
    assert_eq!(encode_frames(&vec![]), Err(FrameError::NoFrames));
    assert_eq!(
        encode_frames(&vec!["aa".to_string(), "a".to_string()]),
        Err(FrameError::BadHex(
            "'a' has an odd number of hex digits".to_string()
        ))
    );
}

#[test]
fn devices_and_shortcuts_are_found_by_name() {
    let devices = vec![
        entry("AA:1", None, None, 0),
        entry("BB:2", None, None, 0),
    ];
    assert_eq!(find_device(&devices, "bb:2").unwrap().device, "BB:2");
    assert_eq!(find_device(&devices, "floor lamp").unwrap().device, "AA:1");
    assert_eq!(
        find_device(&devices, "x").unwrap_err(),
        "no device matching 'x'"
    );
    let items = vec![
        ParsedOneClick {
            name: "Night".to_string(),
            entries: vec![],
        },
        ParsedOneClick {
            name: "Day".to_string(),
            entries: vec![],
        },
    ];
    assert_eq!(find_one_click(&items, "Day").unwrap().name, "Day");
    assert_eq!(
        find_one_click(&items, "day").unwrap_err(),
        "didn't find item day"
    );
}
