use govee::ble::packets::NotifyHumidifierNightlightParams;
use govee::lan_api::{DeviceColor, DeviceStatus, LanDevice};
use govee::platform_api::{DeviceCapability, DeviceType, HttpDeviceInfo};
use govee::service::ble_bridge::{BleBridge, BridgeStatus};
use govee::service::ble_scheduler::{BleScheduler, BleSchedulerConfig};
use govee::service::device::{Device, UndocDeviceInfo};
use govee::service::transport::ble::BleTransport;
use govee::service::transport::iot::{IotCommand, IotTransport};
use govee::service::transport::lan::{
    lan_poll_answered, lan_poll_begin, LanCommand, LanPollStep, LanTransport,
};
use govee::service::transport::nightlight::NightlightTransport;
use govee::service::transport::platform::{PlatformRequest, PlatformTransport};
use govee::service::transport::router::{
    partial_message, unable_message, Attempt, Batch, BatchStep, RouteStep, Router,
};
use govee::service::transport::TransportId::{Ble, Iot, Lan, Nightlight, Platform};
use govee::service::transport::{
    execute_ops, resolve_order, DeviceOp, Handled, TransportArguments,
};
use govee::temperature::{TemperatureScale, TemperatureValue};
use govee::undoc_api::{DeviceEntry, DeviceEntryExt, DeviceSettings};

#[test]
fn order_without_override_is_the_default() {
    let op = DeviceOp::PowerOn(true);
    assert_eq!(resolve_order(&op, None), vec![Ble, Lan, Iot, Platform]);
}

#[test]
fn override_promotes_listed_transports() {
    let op = DeviceOp::PowerOn(true);
    assert_eq!(
        resolve_order(&op, Some(&[Platform, Iot])),
        vec![Platform, Iot, Ble, Lan]
    );
}

fn twenty_degrees() -> TemperatureValue {
    TemperatureValue {
        bits: 20f64.to_bits(),
        scale: TemperatureScale::Celsius,
    }
}

#[test]
fn override_cannot_introduce_an_invalid_transport() {
    // Target temperature is Platform-only; naming BLE must not enable it.
    let op = DeviceOp::SetTargetTemperature {
        instance: "targetTemperature".to_string(),
        target: twenty_degrees(),
    };
    assert_eq!(resolve_order(&op, Some(&[Ble])), vec![Platform]);
}

#[test]
fn scenes_keep_platform_ahead_of_lan() {
    let op = DeviceOp::SetScene("Sunrise".to_string());
    assert_eq!(resolve_order(&op, None), vec![Ble, Platform, Lan]);
}

// ---------------------------------------------------------------- further cases

#[test]
fn a_transport_named_twice_is_tried_once() {
    let op = DeviceOp::PowerOn(true);
    assert_eq!(
        resolve_order(&op, Some(&[Iot, Nightlight, Iot])),
        vec![Iot, Ble, Lan, Platform]
    );
}

#[test]
fn no_transports_named_means_no_override() {
    assert_eq!(TransportArguments::default().order(), None);
    let args = TransportArguments {
        transport_order: vec![Lan],
    };
    assert_eq!(args.order(), Some(vec![Lan]));
}

/// A refusal moves on to the next transport, and so does a failure of the radio;
/// a failure anywhere else ends the run.
#[test]
fn a_run_ends_with_the_first_transport_that_answers() {
    let mut router = Router::new(vec![Ble, Lan, Iot]);
    assert_eq!(router.next(), RouteStep::Try(Ble));
    assert_eq!(router.report(Attempt::Failed), RouteStep::Try(Lan));
    assert_eq!(router.report(Attempt::Declined), RouteStep::Try(Iot));
    assert_eq!(router.report(Attempt::Handled), RouteStep::Done);

    let mut router = Router::new(vec![Lan, Iot]);
    assert_eq!(router.report(Attempt::Failed), RouteStep::Abort);

    let mut router = Router::new(vec![Ble, Lan]);
    router.report(Attempt::Declined);
    assert_eq!(router.report(Attempt::Declined), RouteStep::Exhausted);
    assert_eq!(router.declined, vec![Ble, Lan]);
    let device = Device::new("H6000", "AA:BB:CC:DD:EE:FF:42:2A");
    assert_eq!(
        unable_message(&DeviceOp::PowerOn(true), &device, &router.declined),
        format!(
            "Unable to {} for {} (no transport available; declined: {}, {})",
            DeviceOp::PowerOn(true).describe(),
            device.label(),
            Ble.label(),
            Lan.label()
        )
    );
    assert!(execute_ops(&[], None).is_none());
}

#[test]
fn a_batch_that_took_effect_in_part_is_an_error() {
    let mut batch = Batch::new(2);
    assert_eq!(batch.next(), BatchStep::Next(0));
    assert_eq!(
        batch.report(Handled::NotSupported),
        BatchStep::Answer(Handled::NotSupported)
    );
    assert_eq!(batch.report(Handled::Yes), BatchStep::Next(1));
    assert_eq!(batch.report(Handled::NotSupported), BatchStep::Partial);
    let device = Device::new("H6000", "AA:BB:CC:DD:EE:FF:42:2A");
    assert_eq!(
        partial_message(Lan, &batch, &device, &DeviceOp::PowerOn(true)),
        format!(
            "{} applied 1 of 2 changes to {} and then could not {}",
            Lan.label(),
            device.label(),
            DeviceOp::PowerOn(true).describe()
        )
    );
    assert_eq!(
        batch.report(Handled::Yes),
        BatchStep::Answer(Handled::Yes)
    );
}

fn lan_light() -> Device {
    let mut device = Device::new("H6072", "AA:BB:CC:DD:EE:FF:11:22");
    device.set_lan_device(LanDevice {
        ip: "10.0.0.1".to_string(),
        sku: "H6072".to_string(),
        device: "AA:BB:CC:DD:EE:FF:11:22".to_string(),
    });
    device
}

#[test]
fn the_lan_says_what_it_sends_and_what_it_waits_for() {
    let device = lan_light();
    assert_eq!(
        LanTransport::try_execute(&device, &DeviceOp::PowerOn(true)),
        Some(LanCommand::Turn(true))
    );
    assert_eq!(
        LanTransport::try_execute(&device, &DeviceOp::SetBrightness(7)),
        Some(LanCommand::Brightness(7))
    );
    assert_eq!(
        LanTransport::try_execute(
            &device,
            &DeviceOp::SetHumidifierParameter {
                work_mode: 1,
                value: 1
            }
        ),
        None
    );
    assert_eq!(
        LanTransport::try_execute(
            &Device::new("H6072", "AA:BB:CC:DD:EE:FF:11:22"),
            &DeviceOp::PowerOn(true)
        ),
        None
    );
    let status = DeviceStatus {
        on: true,
        brightness: 7,
        color: DeviceColor { r: 1, g: 2, b: 3 },
        color_temperature_kelvin: 2700,
    };
    assert!(LanCommand::Turn(true).accepts(&status));
    assert!(!LanCommand::Brightness(8).accepts(&status));
    assert!(LanCommand::Color(DeviceColor { r: 1, g: 2, b: 3 }).accepts(&status));
    assert!(!LanCommand::ColorTemperature(2701).accepts(&status));
    assert!(!LanCommand::Scene("x".to_string()).is_verified());
    assert!(LanCommand::Turn(true).is_verified());

    assert_eq!(lan_poll_begin(5000), LanPollStep::Query);
    assert_eq!(lan_poll_begin(5001), LanPollStep::Publish);
    assert_eq!(lan_poll_answered(true), LanPollStep::Publish);
    assert_eq!(lan_poll_answered(false), LanPollStep::Pause(100));
}

fn http_info(instance: &str) -> HttpDeviceInfo {
    HttpDeviceInfo {
        sku: "H7160".to_string(),
        device: "AA".to_string(),
        device_name: "mist".to_string(),
        device_type: DeviceType::Humidifier,
        capabilities: vec![DeviceCapability {
            instance: instance.to_string(),
        }],
        rgb: false,
        brightness: false,
        color_temperature_range: None,
        segmented_rgb: None,
    }
}

#[test]
fn the_platform_api_takes_what_the_account_lists() {
    let mut device = Device::new("H7160", "AA");
    assert_eq!(
        PlatformTransport::try_execute(true, &device, &DeviceOp::PowerOn(true)),
        None
    );
    device.set_http_device_info(http_info("nightlightToggle"));
    assert_eq!(
        PlatformTransport::try_execute(false, &device, &DeviceOp::PowerOn(true)),
        None
    );
    assert_eq!(
        PlatformTransport::try_execute(true, &device, &DeviceOp::PowerOn(true)),
        Some(PlatformRequest::Power(true))
    );
    assert_eq!(
        PlatformTransport::try_execute(
            true,
            &device,
            &DeviceOp::SetTargetTemperature {
                instance: "t".to_string(),
                target: twenty_degrees()
            }
        ),
        Some(PlatformRequest::TargetTemperature {
            instance: "t".to_string(),
            target: twenty_degrees()
        })
    );
    match PlatformTransport::try_execute(true, &device, &DeviceOp::LightPowerOn(true)) {
        Some(PlatformRequest::Toggle { instance, on }) => {
            assert_eq!(instance, "nightlightToggle");
            assert!(on);
        }
        other => panic!("{other:?}"),
    }
}

fn account_entry(sku: &str, topic: Option<&str>) -> UndocDeviceInfo {
    UndocDeviceInfo {
        room_name: None,
        entry: DeviceEntry {
            sku: sku.to_string(),
            device: "AA".to_string(),
            device_name: "mist".to_string(),
            group_id: 0,
            device_ext: DeviceEntryExt {
                device_settings: DeviceSettings {
                    topic: topic.map(|t| t.to_string()),
                    address: None,
                    wifi_name: Some("net".to_string()),
                },
            },
        },
    }
}

#[test]
fn aws_iot_carries_humidifier_modes_as_frames() {
    let mut device = Device::new("H7160", "AA");
    device.undoc_device_info = Some(account_entry("H7160", Some("GD/x")));
    let op = DeviceOp::SetHumidifierParameter {
        work_mode: 257,
        value: 0x20,
    };
    assert_eq!(
        IotTransport::try_execute(true, &device, &op),
        Some(IotCommand::Real(vec![
            "MwUBIAAAAAAAAAAAAAAAAAAAABc=".to_string()
        ]))
    );
    assert_eq!(IotTransport::try_execute(false, &device, &op), None);
    let other = Device::new("H6000", "AA");
    assert_eq!(IotTransport::try_execute(true, &other, &op), None);
}

#[test]
fn a_nightlight_keeps_what_was_not_asked_for() {
    let mut device = Device::new("H7160", "AA");
    device.undoc_device_info = Some(account_entry("H7160", Some("GD/x")));
    device.set_nightlight_state(NotifyHumidifierNightlightParams {
        on: false,
        r: 1,
        g: 2,
        b: 3,
        brightness: 40,
    });
    let texts =
        NightlightTransport::try_execute(true, &device, &DeviceOp::LightPowerOn(true)).unwrap();
    let frame = data_encoding::BASE64.decode(texts[0].as_bytes()).unwrap();
    assert_eq!(&frame[..8], &[0x33, 0x1b, 0x01, 0x28, 1, 2, 3, 0]);
    assert_eq!(
        NightlightTransport::try_execute(true, &device, &DeviceOp::PowerOn(true)),
        None
    );
}

#[test]
fn bluetooth_declines_what_a_segmented_device_would_ignore() {
    let mut scheduler = BleScheduler::new(
        BleBridge::new("p".to_string()),
        BleSchedulerConfig::default(),
    );
    scheduler.bridge.set_status(BridgeStatus {
        online: true,
        ..BridgeStatus::default()
    });
    let scheduler = Some(scheduler);
    let mut light = Device::new("H6072", "AA:BB:CC:DD:EE:FF:11:22");
    let dim = DeviceOp::SetBrightness(7);
    assert_eq!(
        BleTransport::try_execute(&scheduler, &light, &dim, 0).as_deref(),
        Some("CC:DD:EE:FF:11:22")
    );
    let red = DeviceOp::SetColorRgb { r: 255, g: 0, b: 0 };
    assert!(BleTransport::handles(&light, &red));
    // A device that has only named itself as segmented ignores every colour that
    // could be sent to it.
    light.set_segment_mode_reported();
    assert!(!BleTransport::handles(&light, &red));
    assert!(BleTransport::handles(&light, &DeviceOp::PowerOn(true)));
    light.set_remembered_segment_count(8);
    assert_eq!(BleTransport::try_execute(&scheduler, &light, &dim, 0), None);
    assert!(BleTransport::try_execute(&scheduler, &light, &red, 0).is_some());
    assert!(!BleTransport::handles(
        &light,
        &DeviceOp::SetScene("x".to_string())
    ));
    assert_eq!(BleTransport::context(&None, &light, 0), None);
    assert_eq!(
        BleTransport::try_execute_batch(&scheduler, &light, &[red, dim], 0),
        None
    );
}
