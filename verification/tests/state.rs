use govee::clock::Timestamp;
use govee::lan_api::{DeviceStatus, LanDevice};
use govee::platform_api::{DeviceType, HttpDeviceInfo, HttpDeviceState};
use govee::service::ble_bridge::BleBridge;
use govee::service::ble_scheduler::{BleScheduler, BleSchedulerConfig};
use govee::service::device::{Device, UndocDeviceInfo};
use govee::service::iot::IotClient;
use govee::service::state::{
    scene_names, sort_and_dedup_scenes, AfterControl, SceneCategory, SceneEntry, State,
};
use govee::service::transport::router::RouteStep;
use govee::service::transport::{DeviceOp, TransportId};
use govee::temperature::{TemperatureScale, TemperatureValue};
use govee::undoc_api::{DeviceEntry, DeviceEntryExt, DeviceSettings};

const NOW: Timestamp = Timestamp { secs: 100, nanos: 0 };
const LAMP: &str = "AA:BB:CC:DD:EE:FF:42:2A";

fn lamp() -> State {
    let mut state = State::new();
    state.device_mut("H6072", LAMP);
    state
}

fn strings(names: &[&str]) -> Vec<String> {
    names.iter().map(|n| n.to_string()).collect()
}

#[test]
fn settings_are_kept() {
    let mut state = State::new();
    assert_eq!(state.get_temperature_scale(), TemperatureScale::Celsius);
    state.set_temperature_scale(TemperatureScale::Fahrenheit);
    assert_eq!(state.get_temperature_scale(), TemperatureScale::Fahrenheit);
    assert_eq!(state.get_hass_disco_prefix(), "");
    state.set_hass_disco_prefix("homeassistant".to_string());
    assert_eq!(state.get_hass_disco_prefix(), "homeassistant");
    assert!(state.get_iot_client().is_none());
    state.set_iot_client(IotClient);
    assert!(state.get_iot_client().is_some());
    assert!(state.get_ble_scheduler().is_none());
    state.set_ble_scheduler(BleScheduler::new(
        BleBridge::new("p".to_string()),
        BleSchedulerConfig::default(),
    ));
    assert!(state.get_ble_scheduler().is_some());
}

#[test]
fn a_device_is_made_once_and_then_kept() {
    let mut state = lamp();
    state.device_mut("H0000", LAMP).set_target_humidity(7);
    assert_eq!(state.devices().len(), 1);
    let device = state.device_by_id(LAMP).unwrap();
    assert_eq!(device.sku, "H6072");
    assert_eq!(device.target_humidity_percent, Some(7));
    assert!(state.device_by_id("other").is_none());
}

#[test]
fn a_device_answers_to_many_names() {
    let mut state = lamp();
    state.device_mut("H6127", "CE");
    {
        let device = state.device_mut("H6072", LAMP);
        device.topic_id = Some("aabb_lamp".to_string());
        device.set_lan_device(LanDevice {
            ip: "10.0.0.7".to_string(),
            sku: "H6072".to_string(),
            device: LAMP.to_string(),
        });
    }
    for label in [
        LAMP,
        "aa:bb:cc:dd:ee:ff:42:2a",
        "h6072_422a",
        "AABB_LAMP",
        "10.0.0.7",
    ] {
        assert_eq!(state.resolve_device(label).unwrap().id, LAMP, "{label}");
    }
    assert_eq!(state.resolve_device("ce").unwrap().id, "CE");
    assert!(state.resolve_device("nobody").is_none());
    assert_eq!(
        state.resolve_device_read_only("nobody").unwrap_err(),
        "device 'nobody' not found"
    );
    assert_eq!(state.resolve_device_read_only(LAMP).unwrap().id, LAMP);
}

/// An id that is spelled exactly beats a name that comes earlier.
#[test]
fn an_exact_id_comes_first() {
    let mut state = State::new();
    state.device_mut("H6127", "ce");
    state.device_mut("H6127", "CE");
    assert_eq!(state.resolve_device("CE").unwrap().id, "CE");
}

fn entry(topic: Option<&str>) -> DeviceEntry {
    DeviceEntry {
        sku: "H6072".to_string(),
        device: LAMP.to_string(),
        device_name: "lamp".to_string(),
        group_id: 0,
        device_ext: DeviceEntryExt {
            device_settings: DeviceSettings {
                topic: topic.map(|t| t.to_string()),
                address: None,
                wifi_name: Some("net".to_string()),
            },
        },
    }
}

fn listed(device_type: DeviceType) -> HttpDeviceInfo {
    HttpDeviceInfo {
        sku: "H6072".to_string(),
        device: LAMP.to_string(),
        device_name: "lamp".to_string(),
        device_type,
        capabilities: vec![],
        rgb: true,
        brightness: true,
        color_temperature_range: None,
        segmented_rgb: None,
    }
}

#[test]
fn a_status_request_needs_a_client_and_a_topic() {
    let mut state = lamp();
    let mut device = Device::new("H6072", LAMP);
    assert!(state.poll_iot_api(&device, 1).is_none());
    state.set_iot_client(IotClient);
    assert!(state.poll_iot_api(&device, 1).is_none());
    device.undoc_device_info = Some(UndocDeviceInfo {
        room_name: None,
        entry: entry(Some("GD/x")),
    });
    let message = state.poll_iot_api(&device, 1).unwrap();
    assert_eq!(message.topic, "GD/x");
    assert_eq!(message.cmd, "status");
    device.undoc_device_info = Some(UndocDeviceInfo {
        room_name: None,
        entry: entry(None),
    });
    assert!(state.poll_iot_api(&device, 1).is_none());

    state.note_polled("H6072", LAMP, NOW);
    assert_eq!(state.device_by_id(LAMP).unwrap().last_polled, Some(NOW));
}

#[test]
fn the_platform_api_is_asked_only_for_types_it_knows() {
    let mut device = Device::new("H6072", LAMP);
    assert!(State::poll_platform_api(true, &device).is_none());
    device.set_http_device_info(listed(DeviceType::Light));
    assert!(State::poll_platform_api(false, &device).is_none());
    assert!(State::poll_platform_api(true, &device).is_some());
    assert!(State::device_control(true, &device).is_ok());
    assert_eq!(
        State::device_control(false, &device).unwrap_err(),
        format!("Unable to use Platform API to control {}", device.label())
    );
    device.set_http_device_info(listed(DeviceType::Other("x".to_string())));
    assert!(State::poll_platform_api(true, &device).is_none());
}

#[test]
fn a_platform_answer_is_recorded() {
    let mut state = lamp();
    let answer = HttpDeviceState {
        capabilities: vec![],
    };
    state.record_platform_state("H6072", LAMP, answer.clone(), NOW);
    let device = state.device_by_id(LAMP).unwrap();
    assert_eq!(device.http_device_state, Some(answer));
    assert_eq!(device.last_polled, Some(NOW));
    assert_eq!(device.last_http_device_state_update, Some(NOW));
}

#[test]
fn a_command_is_read_back_over_the_channel_of_its_device() {
    let mut state = lamp();
    assert_eq!(
        state.poll_after_control("nobody", NOW),
        AfterControl::Nothing
    );
    assert_eq!(
        state.poll_after_control(LAMP, NOW),
        AfterControl::ReadBackViaPlatform
    );
    state.device_mut("H6072", LAMP).undoc_device_info = Some(UndocDeviceInfo {
        room_name: None,
        entry: entry(Some("GD/x")),
    });
    assert_eq!(
        state.poll_after_control(LAMP, NOW),
        AfterControl::ReadBackViaPlatform
    );
    state.set_iot_client(IotClient);
    assert_eq!(
        state.poll_after_control(LAMP, NOW),
        AfterControl::ReadBackViaIot
    );
    state
        .device_mut("H6072", LAMP)
        .set_ble_device_status_at(DeviceStatus::default(), NOW);
    assert_eq!(state.poll_after_control(LAMP, NOW), AfterControl::Nothing);
    let later = Timestamp {
        secs: 115,
        nanos: 0,
    };
    assert_eq!(
        state.poll_after_control(LAMP, later),
        AfterControl::ReadBackViaIot
    );
    state.device_mut("H6072", LAMP).set_lan_device(LanDevice {
        ip: "10.0.0.7".to_string(),
        sku: "H6072".to_string(),
        device: LAMP.to_string(),
    });
    assert_eq!(state.poll_after_control(LAMP, later), AfterControl::Nothing);
}

#[test]
fn operations_run_in_the_configured_order() {
    let mut state = State::new();
    let op = State::device_power_on(true);
    assert_eq!(
        state.execute_op(&op).next(),
        RouteStep::Try(TransportId::Ble)
    );
    state.set_transport_order(Some(vec![TransportId::Iot]));
    assert_eq!(
        state.execute_op(&op).next(),
        RouteStep::Try(TransportId::Iot)
    );
    assert_eq!(
        state.execute_ops(&[op]).unwrap().next(),
        RouteStep::Try(TransportId::Iot)
    );
    assert!(state.execute_ops(&[]).is_none());
}

#[test]
fn a_colour_ends_the_scene() {
    let mut state = lamp();
    state.apply_op_side_effects("H6072", LAMP, &State::device_set_scene("Sunrise"));
    let scene = |state: &State| {
        state
            .device_by_id(LAMP)
            .unwrap()
            .active_scene
            .as_ref()
            .map(|s| s.name.clone())
    };
    assert_eq!(scene(&state).as_deref(), Some("Sunrise"));
    state.apply_op_side_effects("H6072", LAMP, &State::device_set_brightness(7));
    assert_eq!(scene(&state).as_deref(), Some("Sunrise"));
    state.apply_op_side_effects("H6072", LAMP, &State::device_set_color_rgb(1, 2, 3));
    assert_eq!(scene(&state), None);
    state.apply_ops_side_effects(
        "H6072",
        LAMP,
        &[
            State::device_set_color_temperature(2700),
            State::device_set_scene("Night"),
            State::device_power_on(true),
        ],
    );
    assert_eq!(scene(&state).as_deref(), Some("Night"));
}

#[test]
fn operations_carry_what_was_asked_for() {
    assert_eq!(
        State::device_light_power_on(true),
        DeviceOp::LightPowerOn(true)
    );
    assert_eq!(
        State::humidifier_set_parameter(1, 2),
        DeviceOp::SetHumidifierParameter {
            work_mode: 1,
            value: 2
        }
    );
    let target = TemperatureValue {
        bits: 20f64.to_bits(),
        scale: TemperatureScale::Celsius,
    };
    assert_eq!(
        State::device_set_target_temperature("t", target),
        DeviceOp::SetTargetTemperature {
            instance: "t".to_string(),
            target
        }
    );
}

#[test]
fn an_unknown_light_toggle_is_the_better_error() {
    let mut device = Device::new("H7160", LAMP);
    device.set_http_device_info(HttpDeviceInfo {
        device_type: DeviceType::Humidifier,
        ..listed(DeviceType::Humidifier)
    });
    assert_eq!(
        State::light_power_error(&device, "none".to_string()),
        format!(
            "Don't know how to toggle just the light portion of {}. \
             Please share the device metadata and state if you report this issue",
            device.label()
        )
    );
    let light = Device::new("H6072", LAMP);
    if light.get_light_power_toggle_instance_name().is_some() {
        assert_eq!(
            State::light_power_error(&light, "none".to_string()),
            "none"
        );
    }
}

#[test]
fn a_change_is_published_for_a_known_device() {
    let state = lamp();
    assert_eq!(state.notify_of_state_change(LAMP).unwrap().id, LAMP);
    assert_eq!(
        state.notify_of_state_change("x").unwrap_err(),
        "cannot find device x!?"
    );
}

/// Sorting does not tell case apart, keeps the order of what it cannot tell
/// apart, and drops what repeats the one before.
#[test]
fn scenes_are_sorted_and_named_once() {
    assert_eq!(
        sort_and_dedup_scenes(strings(&["b", "A", "a", "B", "A", "b", "ab", ""])),
        strings(&["", "A", "a", "A", "ab", "b", "B", "b"])
    );
    assert_eq!(
        sort_and_dedup_scenes(strings(&["x", "x", "w", "x"])),
        strings(&["w", "x"])
    );
}

fn scene(name: &str, codes: &[u64]) -> SceneEntry {
    SceneEntry {
        scene_name: name.to_string(),
        scene_codes: codes.to_vec(),
    }
}

fn catalogue() -> Vec<SceneCategory> {
    vec![
        SceneCategory {
            scenes: vec![scene("Sunset", &[0, 4]), scene("Broken", &[0])],
        },
        SceneCategory {
            scenes: vec![scene("Aurora", &[1]), scene("Empty", &[])],
        },
    ]
}

#[test]
fn only_scenes_with_a_code_can_be_selected() {
    assert_eq!(scene_names(&catalogue()), strings(&["Aurora", "Sunset"]));
}

#[test]
fn the_platform_api_names_the_scenes_where_it_can() {
    let mut device = Device::new("H6072", LAMP);
    let named: Option<Result<Vec<String>, &str>> = Some(Ok(strings(&["z", "y"])));
    assert_eq!(
        State::device_list_scenes(&device, named.clone(), Some(catalogue())),
        Ok(strings(&["Aurora", "Sunset"]))
    );
    assert_eq!(
        State::device_list_scenes(&device, named.clone(), None),
        Ok(vec![])
    );
    device.set_http_device_info(listed(DeviceType::Light));
    assert_eq!(
        State::device_list_scenes(&device, named, None),
        Ok(strings(&["y", "z"]))
    );
    assert_eq!(
        State::device_list_scenes(&device, Some(Err("down")), Some(catalogue())),
        Err("down")
    );
}
