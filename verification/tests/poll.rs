use govee::platform_api::{DeviceType, HttpDeviceInfo};
use govee::service::device::Device;
use govee::service::poll::{
    as_chrono, poll_sources, resolve, PollArguments, PollEnvironment, PollError, PollIntervals,
    PollOrderArguments, DEFAULT_AFTER_CONTROL, MAX_TICK, MIN_TICK,
};
use govee::service::transport::TransportId::{Ble, Iot, Lan, Platform};

#[test]
fn the_tick_follows_the_shortest_interval() {
    let intervals = PollIntervals {
        lan: 10,
        ..Default::default()
    };
    assert_eq!(intervals.tick(), 10);
}

/// A one-second LAN interval must not turn the loop into a busy wait.
#[test]
fn the_tick_has_a_floor() {
    let intervals = PollIntervals {
        lan: 1,
        ..Default::default()
    };
    assert_eq!(intervals.tick(), MIN_TICK);
}

/// Long intervals must not stop the loop noticing that a device is due.
#[test]
fn the_tick_has_a_ceiling() {
    let intervals = PollIntervals {
        lan: 3600,
        iot: 3600,
        platform: 3600,
        ble: 3600,
    };
    assert_eq!(intervals.tick(), MAX_TICK);
}

#[test]
fn defaults_match_the_behaviour_before_this_was_configurable() {
    let intervals = PollIntervals::default();
    assert_eq!(intervals.lan, 30);
    assert_eq!(intervals.iot, 900);
    assert_eq!(intervals.platform, 900);
    assert_eq!(intervals.ble, 900);
    assert_eq!(intervals.tick(), 30);
}

/// Raising an interval to save quota must not make every device report
/// itself missing.
#[test]
fn the_staleness_threshold_follows_the_longest_interval() {
    let intervals = PollIntervals {
        platform: 3600,
        ..Default::default()
    };
    assert_eq!(intervals.staleness_threshold(), 3630);
}

#[test]
fn zero_is_rejected_rather_than_interpreted() {
    assert!(resolve::<()>(Some(0), Ok(None), "GOVEE_POLL_INTERVAL").is_err());
    assert_eq!(
        resolve::<()>(Some(60), Ok(None), "GOVEE_POLL_INTERVAL").unwrap(),
        Some(60)
    );
}

fn quiet() -> PollEnvironment<&'static str> {
    PollEnvironment {
        general: Ok(None),
        lan: Ok(None),
        iot: Ok(None),
        platform: Ok(None),
        ble: Ok(None),
    }
}

#[test]
fn the_general_interval_is_the_default_of_the_others() {
    let args = PollArguments {
        poll_interval: Some(100),
        poll_interval_iot: Some(7),
        ..Default::default()
    };
    let env = PollEnvironment {
        lan: Ok(Some(9)),
        iot: Ok(Some(8)),
        ..quiet()
    };
    assert_eq!(
        args.intervals(env),
        Ok(PollIntervals {
            lan: 9,
            iot: 7,
            platform: 100,
            ble: 100
        })
    );
    assert_eq!(
        PollArguments::default().intervals(quiet()),
        Ok(PollIntervals::default())
    );
}

#[test]
fn the_first_bad_interval_is_named() {
    let env = PollEnvironment {
        iot: Ok(Some(0)),
        ble: Err("no number"),
        ..quiet()
    };
    assert_eq!(
        PollArguments::default().intervals(env),
        Err(PollError::Zero("GOVEE_POLL_INTERVAL_IOT"))
    );
    let env = PollEnvironment {
        ble: Err("no number"),
        ..quiet()
    };
    assert_eq!(
        PollArguments::default().intervals(env),
        Err(PollError::Environment("no number"))
    );
}

#[test]
fn what_was_installed_first_stays() {
    let mut configured = None;
    assert_eq!(
        PollIntervals::configured(&configured),
        PollIntervals::default()
    );
    let first = PollIntervals {
        lan: 1,
        ..Default::default()
    };
    first.install(&mut configured);
    PollIntervals::default().install(&mut configured);
    assert_eq!(PollIntervals::configured(&configured), first);
}

#[test]
fn intervals_are_described() {
    assert_eq!(
        PollIntervals::default().describe(),
        "lan=30s iot=900s platform=900s ble=900s (loop tick 30s)"
    );
}

/// A span that is too long to compute with becomes a quarter of an hour.
#[test]
fn an_endless_interval_falls_back() {
    assert_eq!(as_chrono(60), 60);
    assert_eq!(as_chrono(9_223_372_036_854_775), 9_223_372_036_854_775);
    assert_eq!(as_chrono(9_223_372_036_854_776), 900);
    assert_eq!(
        PollIntervals {
            ble: u64::MAX,
            ..Default::default()
        }
        .staleness_threshold(),
        930
    );
}

#[test]
fn the_read_back_waits_as_long_as_was_asked_for() {
    let args = PollArguments::default();
    assert_eq!(args.after_control::<()>(Ok(None)), Ok(DEFAULT_AFTER_CONTROL));
    assert_eq!(DEFAULT_AFTER_CONTROL, 5);
    assert_eq!(args.after_control::<()>(Ok(Some(9))), Ok(9));
    assert_eq!(args.after_control(Err("bad")), Err("bad"));
    let given = PollArguments {
        poll_after_control: Some(0),
        ..args
    };
    assert_eq!(given.after_control(Err("bad")), Ok(0));
}

/// A device that is polled on time is never called missing.
#[test]
fn the_threshold_is_later_than_every_interval() {
    let intervals = PollIntervals {
        lan: 5000,
        ..Default::default()
    };
    assert!(intervals.staleness_threshold() > 5000);
}

#[test]
fn a_flag_beats_the_environment_in_the_order_too() {
    let none = PollOrderArguments::default();
    assert_eq!(none.clone().order::<()>(Ok(None)), Ok(None));
    assert_eq!(
        none.clone().order::<()>(Ok(Some(vec![Ble]))),
        Ok(Some(vec![Ble]))
    );
    assert_eq!(none.order(Err("bad")), Err("bad"));
    let given = PollOrderArguments {
        poll_order: vec![Lan, Ble],
    };
    assert_eq!(given.order(Err("bad")), Ok(Some(vec![Lan, Ble])));
}

#[test]
fn only_sources_that_may_tell_the_state_are_read() {
    let mut device = Device::new("H7160", "AA:BB:CC:DD:EE:FF:42:2A");
    assert_eq!(poll_sources(None, true, &device), vec![Ble]);
    device.set_http_device_info(HttpDeviceInfo {
        sku: "H7160".to_string(),
        device: "AA:BB:CC:DD:EE:FF:42:2A".to_string(),
        device_name: "Mist".to_string(),
        device_type: DeviceType::Humidifier,
        capabilities: vec![],
        rgb: false,
        brightness: false,
        color_temperature_range: None,
        segmented_rgb: None,
    });
    assert_eq!(poll_sources(None, true, &device), vec![Platform]);
    assert_eq!(poll_sources(Some(&[Iot, Ble]), true, &device), vec![Platform]);
}
