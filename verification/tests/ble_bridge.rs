use govee::service::ble_bridge::{
    BleArguments, BleBridge, BridgeStatus, ErrorKind, JobRequest, JobResponse, ProxySlots,
    SubmitError, DEFAULT_TOPIC_PREFIX,
};

#[test]
fn an_unknown_error_kind_does_not_break_parsing() {
    assert_eq!(ErrorKind::from_name("something_new"), ErrorKind::Unknown);
}

fn proxy(source: &str, free: u32) -> ProxySlots {
    ProxySlots {
        source: source.to_string(),
        slots: 3,
        free,
        allocated: vec![],
    }
}

#[test]
fn free_slots_sums_across_proxies() {
    let status = BridgeStatus {
        online: true,
        proxies: vec![proxy("a", 2), proxy("b", 1)],
        ..BridgeStatus::default()
    };
    assert_eq!(status.free_slots(), 3);
}

#[test]
fn error_kinds_are_known_by_their_names() {
    for (name, kind) in [
        ("bad_request", ErrorKind::BadRequest),
        ("not_found", ErrorKind::NotFound),
        ("out_of_slots", ErrorKind::OutOfSlots),
        ("connect_failed", ErrorKind::ConnectFailed),
        ("gatt_error", ErrorKind::GattError),
        ("timeout", ErrorKind::Timeout),
        ("internal", ErrorKind::Internal),
    ] {
        assert_eq!(ErrorKind::from_name(name), kind);
    }
    assert!(!ErrorKind::BadRequest.is_retryable());
    assert!(ErrorKind::Unknown.is_retryable());
}

#[test]
fn topics_stand_under_the_prefix() {
    let bridge = BleBridge::new("gv2mqtt/ble//".to_string());
    assert_eq!(bridge.request_topic(), "gv2mqtt/ble/req");
    assert_eq!(bridge.response_topic(), "gv2mqtt/ble/res");
    assert_eq!(bridge.status_topic(), "gv2mqtt/ble/status");
    assert!(!bridge.is_online());
}

#[test]
fn going_on_and_off_line_is_news() {
    let mut bridge = BleBridge::new("p".to_string());
    let online = BridgeStatus {
        online: true,
        queue_depth: 4,
        ..BridgeStatus::default()
    };
    assert!(bridge.set_status(online.clone()));
    assert!(!bridge.set_status(online));
    assert!(bridge.is_online());
    assert!(bridge.mark_offline());
    assert!(!bridge.mark_offline());
    assert_eq!(bridge.status().queue_depth, 4);
}

fn job(id: &str) -> JobRequest {
    JobRequest {
        id: id.to_string(),
        address: "AA".to_string(),
        priority: "high",
        keep_open_ms: 0,
        deadline_ms: 0,
        ops: vec![],
    }
}

fn answer(id: &str) -> JobResponse {
    JobResponse {
        id: id.to_string(),
        ok: true,
        results: vec![],
        duration_ms: 1,
        error: None,
    }
}

#[test]
fn an_answer_reaches_who_waits_for_it() {
    let mut bridge = BleBridge::new("p".to_string());
    bridge.submit(&job("a"), 7);
    bridge.submit(&job("b"), 8);
    assert_eq!(bridge.handle_response(&answer("b")), Some(8));
    assert_eq!(bridge.handle_response(&answer("b")), None);
    bridge.give_up("a", SubmitError::Cancelled);
    assert_eq!(bridge.handle_response(&answer("a")), Some(7));
    bridge.submit(&job("c"), 9);
    bridge.give_up("c", SubmitError::TimedOut);
    assert_eq!(bridge.handle_response(&answer("c")), None);
    bridge.submit(&job("d"), 9);
    bridge.give_up("d", SubmitError::NotPublished);
    assert_eq!(bridge.handle_response(&answer("d")), None);
}

#[test]
fn other_jobs_do_not_change_who_waits() {
    let mut bridge = BleBridge::new("p".to_string());
    bridge.submit(&job("a"), 1);
    bridge.submit(&job("b"), 2);
    bridge.submit(&job("c"), 3);
    bridge.give_up("b", SubmitError::TimedOut);
    assert_eq!(bridge.handle_response(&answer("c")), Some(3));
    bridge.submit(&job("d"), 4);
    assert_eq!(bridge.handle_response(&answer("a")), Some(1));
    assert_eq!(bridge.handle_response(&answer("d")), Some(4));
    assert_eq!(bridge.status().max_concurrent, 0);
    assert_eq!(bridge.status().queue_depth, 0);
}

#[test]
fn a_flag_beats_the_environment() {
    let none: Result<Option<String>, ()> = Ok(None);
    let args = BleArguments::default();
    assert_eq!(
        args.topic_prefix(none.clone()).unwrap(),
        DEFAULT_TOPIC_PREFIX
    );
    assert_eq!(
        args.topic_prefix::<()>(Ok(Some("env".to_string()))).unwrap(),
        "env"
    );
    assert_eq!(args.topic_prefix(Err("bad")), Err("bad"));
    assert_eq!(args.max_concurrent::<()>(Ok(Some(2))), Ok(Some(2)));
    assert_eq!(args.address_map(none.clone()), Ok(None));
    assert_eq!(
        args.exclude_spec::<()>(Ok(Some("x".to_string()))),
        Ok(Some("x".to_string()))
    );
    assert_eq!(args.is_disabled::<()>(Ok(None)), Ok(false));
    assert_eq!(args.is_disabled::<()>(Ok(Some(true))), Ok(true));
    assert_eq!(args.is_disabled(Err("bad")), Err("bad"));

    let given = BleArguments {
        ble_topic_prefix: Some("flag".to_string()),
        no_ble: true,
        ble_max_concurrent: Some(5),
        ble_address_map: Some("m".to_string()),
        ble_exclude: Some("e".to_string()),
    };
    assert_eq!(given.topic_prefix(Err("bad")), Ok("flag".to_string()));
    assert_eq!(given.max_concurrent(Err("bad")), Ok(Some(5)));
    assert_eq!(given.address_map(Err("bad")), Ok(Some("m".to_string())));
    assert_eq!(given.exclude_spec(Err("bad")), Ok(Some("e".to_string())));
    assert_eq!(given.is_disabled(Err("bad")), Ok(true));
}
