use govee::ble::{SEGMENTS_PER_PAGE, SEGMENT_MASK_BYTES};
use govee::clock::Timestamp;
use govee::lan_api::DeviceColor;
use govee::service::ble_bridge::{
    BleBridge, BridgeStatus, ErrorKind, JobError, JobOp, JobResponse, JobResult,
};
use govee::service::ble_scheduler::query::{MAX_DISCOVERY_PAGES, SPECULATIVE_QUERY_TIMEOUT_MS};
use govee::service::ble_scheduler::session::answer_timeout;
use govee::service::ble_scheduler::{
    apply_notifications, apply_notifications_at, build_job, exchange, session_outcome,
    BleAddressOverrides, BleExclusions, BleScheduler, BleSchedulerConfig, Breaker, FailureNote,
    FrameError, JobFailed, MergeError, NoSessionSlot, NothingToDo, PendingOps, Query, RunError,
    SessionError, SessionStep, GOVEE_NOTIFY_CHAR, GOVEE_WRITE_CHAR,
};
use govee::service::device::Device;
use govee::service::transport::DeviceOp;

/// A segmented device ignores the whole-strip colour write, so its colour
/// has to go out as a mask over every segment instead.
#[test]
fn a_segmented_device_gets_colour_as_a_segment_command() {
    let mut pending = PendingOps::default();
    pending
        .merge(&DeviceOp::SetColorRgb { r: 0, g: 0, b: 255 })
        .unwrap();

    let plain = frames_hex(&pending);
    assert!(
        plain.iter().any(|f| f.starts_with("33050d")),
        "an unsegmented device gets the whole-strip write: {plain:?}"
    );

    let segmented = frames_hex_for(&pending, Some(4));
    let command = segmented
        .iter()
        .find(|f| f.starts_with("33051501"))
        .unwrap_or_else(|| panic!("expected a segment command in {segmented:?}"));

    // Blue, and a mask naming all four segments.
    assert_eq!(&command[8..14], "0000ff");
    assert_eq!(&command[24..26], "0f");
}

/// A device that has segments is asked every poll; one that never mentions
/// any is asked once per run, so an executor that treats the silence as a
/// failure cannot set it aside forever.
#[test]
fn an_unknown_device_is_probed_once_per_run() {
    let mut scheduler = scheduler();

    assert!(scheduler.may_probe_segments("light", None));
    assert!(!scheduler.may_probe_segments("light", None));
    assert!(!scheduler.may_probe_segments("light", None));

    // Once it has told us it has some, we want them fresh every time.
    assert!(scheduler.may_probe_segments("light", Some(8)));
    assert!(scheduler.may_probe_segments("light", Some(8)));
}

/// The full timeout is only ever spent waiting on silence, so a
/// speculative question gets a shorter one.
#[test]
fn a_speculative_query_waits_less() {
    let configured = 5000;

    assert_eq!(Query::Power.timeout(configured), configured);
    assert_eq!(
        Query::Segments(1).timeout(configured),
        SPECULATIVE_QUERY_TIMEOUT_MS
    );

    // Never longer than what the operator configured, though.
    let strict = 500;
    assert_eq!(Query::Segments(1).timeout(strict), strict);
}

/// A device with no segments simply does not answer, so probing is what
/// lets a Bluetooth-only device — which the Platform API does not describe
/// at all — reveal that it has any.
#[test]
fn segment_discovery_reaches_one_page_past_what_is_known() {
    // Nothing known: ask everything, because the executor stops at the
    // first silence and a device is then mapped in one poll.
    assert_eq!(
        Query::discover_segments(None).len(),
        MAX_DISCOVERY_PAGES as usize
    );

    // Three known segments fill page 1, so look at page 2 as well.
    assert_eq!(
        Query::discover_segments(Some(3)),
        vec![Query::Segments(1), Query::Segments(2)]
    );

    // Eight need three pages, so reach for a fourth.
    assert_eq!(Query::discover_segments(Some(8)).len(), 4);

    // The ceiling bounds a device that answers every page it is asked.
    // It has to stay below what a command mask can address, or an
    // over-reporting device becomes uncontrollable rather than merely
    // over-reported -- which is exactly what happened to an H6116.
    let ceiling = MAX_DISCOVERY_PAGES * SEGMENTS_PER_PAGE as u32;
    assert!(
        ceiling < (SEGMENT_MASK_BYTES * 8) as u32,
        "discovery must not be able to outgrow the command mask"
    );
    assert_eq!(Query::discover_segments(Some(300)).len(), 6);
}

/// However many a device turns out to have, one poll stays bounded.
#[test]
fn segment_discovery_does_not_grow_without_limit() {
    assert_eq!(
        Query::discover_segments(Some(300)).len(),
        MAX_DISCOVERY_PAGES as usize
    );
}

/// A scene touching a few segments must not turn into a long radio
/// session: each query is a write plus a notify round trip.
#[test]
fn segment_read_back_asks_for_each_page_once() {
    // Segments 0..=2 share page 1, 3..=5 page 2.
    let queries = Query::pages_covering(&[0, 1, 4]);
    assert_eq!(queries, vec![Query::Segments(1), Query::Segments(2)]);

    // Duplicates within a page collapse.
    assert_eq!(Query::pages_covering(&[6, 7, 8]), vec![Query::Segments(3)]);

    // And the count is bounded however wide the scene.
    assert_eq!(Query::pages_covering(&(0..90).collect::<Vec<_>>()).len(), 4);
}

/// Nothing written means nothing to verify.
#[test]
fn nothing_touched_asks_nothing() {
    assert!(Query::pages_covering(&[]).is_empty());
}

fn scheduler() -> BleScheduler {
    BleScheduler::new(
        BleBridge::new("gv2mqtt/ble".to_string()),
        BleSchedulerConfig::default(),
    )
}

fn breaker_for(scheduler: &BleScheduler, device_id: &str) -> Option<Breaker> {
    scheduler.breakers.get(device_id).copied()
}

/// Running out of session slots happens on our side of the radio, so it
/// says nothing about the device. Counting it would let a busy moment set
/// aside a light that is answering perfectly well.
#[test]
fn a_busy_session_slot_does_not_count_against_the_device() {
    let mut scheduler = scheduler();
    let err = SessionError::NoSessionSlot(NoSessionSlot { slots: 3 });

    assert_eq!(
        scheduler.note_failure("light", &err, 0),
        FailureNote::Ignored
    );

    assert!(breaker_for(&scheduler, "light").is_none());
}

/// A job that burned its whole budget already cost the caller 30 seconds.
/// Requiring two more of those before setting the device aside spends a
/// minute and a half proving what the first one showed.
#[test]
fn a_timeout_opens_the_breaker_at_once() {
    let mut scheduler = scheduler();
    let err = SessionError::JobFailed(JobFailed {
        kind: ErrorKind::Timeout,
        message: "no answer".to_string(),
    });

    scheduler.note_failure("light", &err, 1000);

    let breaker = breaker_for(&scheduler, "light").expect("a breaker");
    assert!(breaker.is_open(1000));
    assert_eq!(breaker.open_until_ms, Some(301_000));
}

/// Anything that fails quickly is an ordinary failure and has to happen
/// `breaker_threshold` times in a row before the device is set aside.
#[test]
fn a_quick_failure_waits_for_the_threshold() {
    let mut scheduler = scheduler();
    let err = SessionError::JobFailed(JobFailed {
        kind: ErrorKind::GattError,
        message: "status 133".to_string(),
    });

    for expected in 1..scheduler.config.breaker_threshold {
        scheduler.note_failure("light", &err, 1000);
        let breaker = breaker_for(&scheduler, "light").expect("a breaker");
        assert_eq!(breaker.consecutive_failures, expected);
        assert!(!breaker.is_open(1000));
    }

    scheduler.note_failure("light", &err, 1000);
    assert!(breaker_for(&scheduler, "light")
        .expect("a breaker")
        .is_open(1000));
}

/// A query only accepts a reply that shares its header.
///
/// Every Govee query and its reply start with the same two bytes, which is
/// precisely what distinguishes a reply from the receipt a *write* earns —
/// that carries the `33` opcode. Without the distinction the executor took
/// the first notification to arrive, and after a command the receipt beats
/// the reply: a light switched off reported itself as on until something
/// else polled it.
#[test]
fn a_query_only_accepts_a_reply_with_its_own_header() {
    assert_eq!(Query::Power.expect_prefix(), vec![0xaa, 0x01]);
    assert_eq!(Query::Brightness.expect_prefix(), vec![0xaa, 0x04]);
    assert_eq!(Query::Color.expect_prefix(), vec![0xaa, 0x05]);
    assert_eq!(Query::Segments(3).expect_prefix(), vec![0xaa, 0xa5, 0x03]);

    // And it is the query frame's own header, not a second source of
    // truth that could drift from it.
    for query in [
        Query::Power,
        Query::Brightness,
        Query::Color,
        Query::Segments(2),
    ] {
        let frame = query.frame();
        let prefix = query.expect_prefix();
        assert_eq!(&frame[..prefix.len()], &prefix[..], "{query:?}");
    }

    // A write receipt shares the opcode but not the direction byte, so it
    // can never be mistaken for a reply.
    let receipt = [0x33u8, 0x01, 0x00];
    assert!(!receipt.starts_with(&Query::Power.expect_prefix()));
}

/// What was sent is believed until the device says otherwise.
#[test]
fn a_session_writes_what_it_asked_for_into_the_state() {
    let mut device = Device::new("H613D", "AA:BB:CC:DD:EE:FF:00:06");

    let mut pending = PendingOps::default();
    pending.merge(&DeviceOp::LightPowerOn(true)).unwrap();
    pending.merge(&DeviceOp::SetBrightness(60)).unwrap();
    pending
        .merge(&DeviceOp::SetColorRgb { r: 0, g: 255, b: 0 })
        .unwrap();
    assert!(pending.apply_optimistically(&mut device));

    let status = device.device_state().expect("a state");
    assert!(status.on);
    assert_eq!(status.brightness, 60);
    assert_eq!(status.color, DeviceColor { r: 0, g: 255, b: 0 });

    // Switching off says nothing about colour, so nothing else is touched.
    let mut off = PendingOps::default();
    off.merge(&DeviceOp::LightPowerOn(false)).unwrap();
    assert!(off.apply_optimistically(&mut device));

    let status = device.device_state().expect("a state");
    assert!(!status.on);
    assert_eq!(
        status.color,
        DeviceColor { r: 0, g: 255, b: 0 },
        "the colour it was showing is still the colour it has"
    );
}

/// `exchange` is fed from two places -- `PendingOps::frames` for ordinary
/// commands and `service::segments` for segment colour -- through a
/// `&[Vec<u8>]` that cannot say which kind of bytes it holds. This pins the
/// contract to raw frames.
#[test]
fn frames_leave_the_scheduler_as_raw_bytes() {
    let mut pending = PendingOps::default();
    pending.merge(&DeviceOp::LightPowerOn(true)).unwrap();
    pending.merge(&DeviceOp::SetBrightness(50)).unwrap();

    for frame in pending.frames(None).unwrap() {
        assert_eq!(frame.len(), 20, "a Govee frame is twenty bytes");
        assert_eq!(frame[0], 0x33, "a write frame starts with 0x33");
        assert_eq!(
            frame[19],
            frame[..19].iter().fold(0u8, |a, b| a ^ b),
            "the checksum has to survive the trip"
        );
    }

    // A query travels the same way.
    let query = Query::Segments(1).frame();
    assert_eq!(query.len(), 20);
    assert_eq!(&query[..3], &[0xaa, 0xa5, 0x01]);
}

fn frames_hex(pending: &PendingOps) -> Vec<String> {
    frames_hex_for(pending, None)
}

fn frames_hex_for(pending: &PendingOps, segments: Option<u32>) -> Vec<String> {
    pending
        .frames(segments)
        .unwrap()
        .into_iter()
        .map(|frame| frame.iter().map(|b| format!("{b:02x}")).collect())
        .collect()
}

#[test]
fn commands_collapse_into_one_session() {
    let mut pending = PendingOps::default();
    pending.merge(&DeviceOp::LightPowerOn(true)).unwrap();
    pending.merge(&DeviceOp::SetBrightness(50)).unwrap();
    pending.merge(&DeviceOp::SetColorTemperature(2700)).unwrap();

    assert_eq!(
        frames_hex(&pending),
        vec![
            "3301010000000000000000000000000000000033",
            "3304320000000000000000000000000000000005",
            "33050dffffff0a8c000000000000000000000042",
        ]
    );
}

#[test]
fn a_power_only_batch_is_a_single_frame() {
    // What a segmented device gets: power and nothing else.
    let mut pending = PendingOps::default();
    pending.merge(&DeviceOp::LightPowerOn(true)).unwrap();

    assert_eq!(
        frames_hex(&pending),
        vec!["3301010000000000000000000000000000000033"]
    );
    assert_eq!(pending.verification_queries(), vec![Query::Power]);
}

#[test]
fn setting_brightness_also_switches_the_light_on() {
    // Home Assistant sends "turn on at 60%" as brightness alone, trusting
    // the transport to power the device on. Over BLE that has to be said.
    let mut pending = PendingOps::default();
    pending.merge(&DeviceOp::SetBrightness(60)).unwrap();

    assert_eq!(
        frames_hex(&pending),
        vec![
            "3301010000000000000000000000000000000033",
            "33043c000000000000000000000000000000000b",
        ]
    );
    assert!(pending.verification_queries().contains(&Query::Power));
}

#[test]
fn an_explicit_power_state_is_not_second_guessed() {
    let mut pending = PendingOps::default();
    pending.merge(&DeviceOp::PowerOn(false)).unwrap();
    pending.merge(&DeviceOp::SetBrightness(60)).unwrap();

    // Switching off wins; we do not helpfully switch it back on.
    assert_eq!(
        frames_hex(&pending),
        vec!["3301000000000000000000000000000000000032"]
    );
}

#[test]
fn powering_on_explicitly_does_not_duplicate_the_frame() {
    let mut pending = PendingOps::default();
    pending.merge(&DeviceOp::LightPowerOn(true)).unwrap();
    pending.merge(&DeviceOp::SetBrightness(60)).unwrap();

    assert_eq!(frames_hex(&pending).len(), 2);
}

#[test]
fn the_last_value_for_an_attribute_wins() {
    let mut pending = PendingOps::default();
    pending.merge(&DeviceOp::SetBrightness(10)).unwrap();
    pending.merge(&DeviceOp::SetBrightness(90)).unwrap();

    assert_eq!(pending.brightness, Some(90));
    // Two frames: the implied power-on, then the brightness itself.
    assert_eq!(
        frames_hex(&pending),
        vec![
            "3301010000000000000000000000000000000033",
            "33045a000000000000000000000000000000006d"
        ]
    );
}

#[test]
fn colour_and_colour_temperature_displace_each_other() {
    let mut pending = PendingOps::default();
    pending.merge(&DeviceOp::SetColorTemperature(4000)).unwrap();
    pending
        .merge(&DeviceOp::SetColorRgb { r: 1, g: 2, b: 3 })
        .unwrap();

    assert_eq!(pending.kelvin, None);
    assert_eq!(
        frames_hex(&pending),
        vec![
            "3301010000000000000000000000000000000033",
            "33050d010203000000000000000000000000003b"
        ]
    );
}

#[test]
fn switching_off_sends_nothing_else() {
    let mut pending = PendingOps::default();
    pending.merge(&DeviceOp::SetBrightness(80)).unwrap();
    pending
        .merge(&DeviceOp::SetColorRgb { r: 1, g: 2, b: 3 })
        .unwrap();
    pending.merge(&DeviceOp::PowerOn(false)).unwrap();

    assert_eq!(
        frames_hex(&pending),
        vec!["3301000000000000000000000000000000000032"]
    );
}

#[test]
fn zero_brightness_does_not_become_an_off_command() {
    let mut pending = PendingOps::default();
    pending.merge(&DeviceOp::SetBrightness(0)).unwrap();

    assert_eq!(
        frames_hex(&pending),
        vec![
            "3301010000000000000000000000000000000033",
            "3304010000000000000000000000000000000036"
        ]
    );
}

#[test]
fn unsupported_operations_are_rejected() {
    let mut pending = PendingOps::default();
    assert!(pending
        .merge(&DeviceOp::SetScene("Sunrise".to_string()))
        .is_err());
}

#[test]
fn only_the_attributes_we_changed_are_read_back() {
    let mut pending = PendingOps::default();
    pending.merge(&DeviceOp::SetBrightness(50)).unwrap();

    // Power comes along because setting brightness implies switching on;
    // colour is still left alone, which is the point of the exercise.
    assert_eq!(
        pending.verification_queries(),
        vec![Query::Power, Query::Brightness]
    );
}

#[test]
fn colour_and_colour_temperature_share_one_query() {
    let mut pending = PendingOps::default();
    pending.merge(&DeviceOp::LightPowerOn(true)).unwrap();
    pending.merge(&DeviceOp::SetColorTemperature(3000)).unwrap();

    assert_eq!(
        pending.verification_queries(),
        vec![Query::Power, Query::Color]
    );
}

#[test]
fn switching_off_only_reads_back_the_power_state() {
    let mut pending = PendingOps::default();
    pending.merge(&DeviceOp::SetBrightness(80)).unwrap();
    pending.merge(&DeviceOp::PowerOn(false)).unwrap();

    assert_eq!(pending.verification_queries(), vec![Query::Power]);
}

#[test]
fn queries_are_single_frames() {
    for query in Query::all_queries() {
        let frame = query.frame();
        assert_eq!(frame.len(), 20, "{query:?}");
        assert_eq!(frame[0], 0xaa, "a query frame starts with 0xaa");
    }
}

fn device(sku: &str, id: &str) -> Device {
    Device::new(sku, id)
}

#[test]
fn an_address_override_replaces_the_derived_one() {
    let overrides =
        BleAddressOverrides::parse("4C:50:60:74:F4:2B:C9:14=60:74:F4:2B:C9:14").unwrap();

    assert_eq!(
        overrides.get("4c:50:60:74:f4:2b:c9:14"),
        Some("60:74:F4:2B:C9:14")
    );
    assert_eq!(overrides.get("something-else"), None);
}

#[test]
fn a_malformed_override_is_rejected_rather_than_ignored() {
    // Silently dropping it would leave the user wondering why their
    // correction had no effect.
    assert!(BleAddressOverrides::parse("no-equals-sign").is_err());
}

#[test]
fn blank_override_entries_are_skipped() {
    let overrides = BleAddressOverrides::parse(" a=AA:BB:CC:DD:EE:FF , ").unwrap();
    assert_eq!(overrides.entries(), 1);
}

#[test]
fn an_empty_exclusion_list_excludes_nothing() {
    let exclusions = BleExclusions::parse("");
    assert!(exclusions.is_empty());
    assert!(!exclusions.excludes(&device("H601B", "AA:BB:CC:DD:EE:FF:11:22")));
}

#[test]
fn a_device_can_be_excluded_by_id() {
    let exclusions = BleExclusions::parse("AA:BB:CC:DD:EE:FF:11:22");
    assert!(exclusions.excludes(&device("H601B", "AA:BB:CC:DD:EE:FF:11:22")));
    assert!(!exclusions.excludes(&device("H601B", "AA:BB:CC:DD:EE:FF:11:23")));
}

#[test]
fn a_whole_model_can_be_excluded_by_sku() {
    let exclusions = BleExclusions::parse("H601B");
    assert!(exclusions.excludes(&device("H601B", "AA:BB:CC:DD:EE:FF:11:22")));
    assert!(!exclusions.excludes(&device("H6127", "AA:BB:CC:DD:EE:FF:11:22")));
}

#[test]
fn matching_ignores_case() {
    let exclusions = BleExclusions::parse("h601b");
    assert!(exclusions.excludes(&device("H601B", "AA:BB:CC:DD:EE:FF:11:22")));
}

#[test]
fn the_computed_name_is_matched_too() {
    // What the user sees in Home Assistant before renaming.
    let dev = device("H601B", "AA:BB:CC:DD:EE:FF:11:22");
    let exclusions = BleExclusions::parse(&dev.computed_name());
    assert!(exclusions.excludes(&dev));
}

#[test]
fn blank_entries_are_ignored() {
    // A trailing comma or a stray space must not exclude everything.
    let exclusions = BleExclusions::parse(" H601B , ,");
    assert_eq!(exclusions.entries(), ["h601b"]);
    assert!(!exclusions.excludes(&device("H6127", "AA:BB:CC:DD:EE:FF:11:22")));
}

#[test]
fn a_breaker_opens_only_after_repeated_failures() {
    let mut breaker = Breaker::default();
    let now = 1_000_000;
    assert!(!breaker.is_open(now));

    breaker.consecutive_failures = 3;
    breaker.open_until_ms = Some(now + 300_000);
    assert!(breaker.is_open(now));
    assert!(!breaker.is_open(now + 301_000));
}

// ---------------------------------------------------------------- further cases

#[test]
fn batches_collapse_in_pieces() {
    let ops = [
        DeviceOp::SetBrightness(10),
        DeviceOp::SetColorTemperature(4000),
        DeviceOp::SetColorRgb { r: 1, g: 2, b: 3 },
    ];
    let mut whole = PendingOps::default();
    assert!(whole.is_empty());
    whole.merge_all(&ops).unwrap();
    let mut pieces = PendingOps::default();
    pieces.merge_all(&ops[..1]).unwrap();
    pieces.merge_all(&ops[1..]).unwrap();
    assert_eq!(whole, pieces);
    assert!(!whole.is_empty());
    assert!(whole.powers_on_implicitly());
}

#[test]
fn merging_says_what_it_refuses() {
    let mut pending = PendingOps::default();
    assert_eq!(
        pending.merge(&DeviceOp::SetColorTemperature(65536)),
        Err(MergeError::OutOfRange(65536))
    );
    assert_eq!(
        pending.merge(&DeviceOp::SetScene("Sunrise".to_string())),
        Err(MergeError::Unsupported)
    );
    assert!(pending.is_empty());
    pending.merge(&DeviceOp::SetColorTemperature(0)).unwrap();
    assert_eq!(pending.frames(None), Err(FrameError::ZeroKelvin));
    assert_eq!(
        PendingOps {
            color: Some((1, 2, 3)),
            ..PendingOps::default()
        }
        .frames(Some(57)),
        Err(FrameError::SegmentOutOfRange(56))
    );
}

#[test]
fn a_job_writes_pauses_and_asks() {
    let config = BleSchedulerConfig::default();
    let frames = vec![vec![1u8, 2], vec![3u8]];
    let job = build_job(
        "job".to_string(),
        &config,
        "aa:bb:cc:dd:ee:ff",
        &frames,
        &[Query::Power, Query::Segments(2)],
        "high",
    )
    .unwrap();
    assert_eq!(job.id, "job");
    assert_eq!(job.address, "AA:BB:CC:DD:EE:FF");
    assert_eq!(job.priority, "high");
    assert_eq!((job.keep_open_ms, job.deadline_ms), (30_000, 30_000));
    assert_eq!(job.ops.len(), 7);
    match &job.ops[0] {
        JobOp::Write(write) => {
            assert_eq!(write.char, GOVEE_WRITE_CHAR);
            assert_eq!(write.data, "AQI=");
            assert!(!write.response);
        }
        other => panic!("{other:?}"),
    }
    assert!(matches!(job.ops[1], JobOp::Delay(200)));
    assert!(matches!(job.ops[2], JobOp::Write(_)));
    match &job.ops[4] {
        JobOp::Query(query) => {
            assert_eq!(query.write_char, GOVEE_WRITE_CHAR);
            assert_eq!(query.notify_char, GOVEE_NOTIFY_CHAR);
            assert_eq!(query.data, "qgEAAAAAAAAAAAAAAAAAAAAAAKs=");
            assert_eq!(query.timeout_ms, 5000);
            assert!(!query.optional && !query.stop_if_unanswered);
            assert_eq!(query.expect_prefix.as_deref(), Some("qgE="));
        }
        other => panic!("{other:?}"),
    }
    match &job.ops[6] {
        JobOp::Query(query) => {
            assert_eq!(query.timeout_ms, 2000);
            assert!(query.optional && query.stop_if_unanswered);
        }
        other => panic!("{other:?}"),
    }
    assert_eq!(answer_timeout(&config), 45_000);
}

/// Letters beyond ASCII are put in upper case too, even where that takes more
/// of them.
#[test]
fn an_exchange_has_an_id_of_its_own_and_an_upper_case_address() {
    let config = BleSchedulerConfig::default();
    let frames = vec![vec![1u8]];
    let one = exchange(&config, "ä:ß:cc", &frames, &[], "high").unwrap();
    let other = exchange(&config, "ä:ß:cc", &frames, &[], "high").unwrap();
    assert_eq!(one.address, "Ä:SS:CC");
    assert_ne!(one.id, other.id);
    assert_eq!(one.id.len(), 36);
    for (i, c) in one.id.chars().enumerate() {
        if i == 8 || i == 13 || i == 18 || i == 23 {
            assert_eq!(c, '-');
        } else {
            assert!(c.is_ascii_hexdigit() && !c.is_ascii_uppercase());
        }
    }
    assert_eq!(
        exchange(&config, "x", &[], &[], "high").unwrap_err(),
        NothingToDo
    );
}

fn response(ok: bool, error: Option<JobError>) -> JobResponse {
    JobResponse {
        id: "job".to_string(),
        ok,
        results: vec![],
        duration_ms: 0,
        error,
    }
}

#[test]
fn a_response_says_how_its_session_went() {
    assert_eq!(session_outcome(&response(true, None)), Ok(()));
    assert_eq!(
        session_outcome(&response(false, None)),
        Err(SessionError::FailedWithoutReason)
    );
    let error = JobError {
        kind: ErrorKind::OutOfSlots,
        message: "busy".to_string(),
        retry_after_ms: Some(5),
    };
    assert_eq!(
        session_outcome(&response(false, Some(error))),
        Err(SessionError::JobFailed(JobFailed {
            kind: ErrorKind::OutOfSlots,
            message: "busy".to_string(),
        }))
    );
}

#[test]
fn failures_are_retried_when_they_can_be() {
    assert_eq!(
        BleScheduler::retry_delay(ErrorKind::BadRequest, Some(5)),
        None
    );
    assert_eq!(
        BleScheduler::retry_delay(ErrorKind::OutOfSlots, Some(7000)),
        Some(7000)
    );
}

#[test]
fn slots_are_taken_and_given_back() {
    let mut scheduler = scheduler();
    assert_eq!(scheduler.try_begin_session(), Ok(()));
    assert_eq!(
        scheduler.try_begin_session(),
        Err(NoSessionSlot { slots: 1 })
    );
    scheduler.end_session();
    assert_eq!(scheduler.try_begin_session(), Ok(()));
}

#[test]
fn commands_gather_until_they_are_due() {
    let mut scheduler = scheduler();
    let light = device("H6127", "AA:BB:CC:DD:EE:FF:11:22");
    let first = scheduler
        .apply(
            &light,
            "CC:DD:EE:FF:11:22",
            &[DeviceOp::LightPowerOn(true)],
            1,
        )
        .unwrap();
    let second = scheduler
        .apply(
            &light,
            "CC:DD:EE:FF:11:22",
            &[DeviceOp::SetBrightness(50)],
            2,
        )
        .unwrap();
    assert!(first, "the first command starts the window");
    assert!(!second, "the second one joins it");
    assert_eq!(
        scheduler.apply(
            &light,
            "CC:DD:EE:FF:11:22",
            &[DeviceOp::SetScene("x".to_string())],
            3
        ),
        Err(MergeError::Unsupported)
    );

    let due = scheduler.take_due("AA:BB:CC:DD:EE:FF:11:22").unwrap();
    assert_eq!(due.address, "CC:DD:EE:FF:11:22");
    assert_eq!(due.waiters, vec![1, 2]);
    assert_eq!(due.frames().unwrap().len(), 2);
    let job = scheduler.run_session(&due).unwrap();
    assert_eq!(job.address, "CC:DD:EE:FF:11:22");
    assert_eq!(job.ops.len(), 3);
    assert_eq!(
        scheduler.read_back(&due.pending, true),
        vec![Query::Power, Query::Brightness]
    );
    assert!(scheduler.read_back(&due.pending, false).is_empty());
    assert!(scheduler.take_due("AA:BB:CC:DD:EE:FF:11:22").is_none());

    let empty = govee::service::ble_scheduler::DueSession {
        pending: PendingOps::default(),
        ..due
    };
    assert_eq!(
        scheduler.run_session(&empty).unwrap_err(),
        RunError::NothingToSend
    );
    let impossible = govee::service::ble_scheduler::DueSession {
        pending: PendingOps {
            kelvin: Some(0),
            ..PendingOps::default()
        },
        ..empty
    };
    assert_eq!(
        scheduler.run_session(&impossible).unwrap_err(),
        RunError::Frame(FrameError::ZeroKelvin)
    );
}

#[test]
fn segment_frames_are_read_back_page_by_page() {
    let scheduler = scheduler();
    let job = scheduler
        .send_frames("aa", &[vec![1u8]], &[0, 1, 4])
        .unwrap();
    // One write and two pages, with pauses between them.
    assert_eq!(job.ops.len(), 5);
    assert_eq!(
        scheduler.send_frames("aa", &[], &[]).unwrap_err(),
        NothingToDo
    );
}

#[test]
fn questions_give_way_to_commands() {
    let scheduler = scheduler();
    let job = scheduler.ask("aa", &Query::all_queries()).unwrap();
    assert_eq!(job.priority, "poll");
    assert_eq!(job.ops.len(), 5);
    assert_eq!(scheduler.ask("aa", &[]).unwrap_err(), NothingToDo);
    let command = scheduler.send_frames("aa", &[vec![1u8]], &[]).unwrap();
    assert_eq!(command.priority, "user");
}

#[test]
fn a_guessed_address_is_pointed_out() {
    let mut scheduler = scheduler();
    let light = device("H601B", "AA:BB:CC:DD:EE:FF:11:22");
    assert_eq!(
        scheduler.address_for(&light).as_deref(),
        Some("CC:DD:EE:FF:11:22")
    );
    assert_eq!(
        scheduler.address_note(&light),
        " (address CC:DD:EE:FF:11:22 was guessed from the device id; \
         correct it with --ble-address-map if that is wrong)"
    );
    scheduler.config.address_overrides =
        BleAddressOverrides::parse("AA:BB:CC:DD:EE:FF:11:22=cc:dd:ee:ff:11:23").unwrap();
    assert_eq!(
        scheduler.address_for(&light).as_deref(),
        Some("CC:DD:EE:FF:11:23")
    );
    assert_eq!(scheduler.address_note(&light), "");
}

#[test]
fn availability_needs_the_executor_and_a_closed_breaker() {
    let mut scheduler = scheduler();
    let light = device("H601B", "AA:BB:CC:DD:EE:FF:11:22");
    assert!(!scheduler.is_available_for(&light, 0));
    scheduler.bridge.set_status(BridgeStatus {
        online: true,
        ..BridgeStatus::default()
    });
    assert!(scheduler.is_available_for(&light, 0));
    let err = SessionError::JobFailed(JobFailed {
        kind: ErrorKind::Timeout,
        message: String::new(),
    });
    scheduler.note_failure("AA:BB:CC:DD:EE:FF:11:22", &err, 0);
    assert!(!scheduler.is_available_for(&light, 299_999));
    assert!(scheduler.is_available_for(&light, 300_000));
    assert!(scheduler.note_success("AA:BB:CC:DD:EE:FF:11:22"));
    assert!(scheduler.is_available_for(&light, 0));
    scheduler.config.exclusions = BleExclusions::parse("h601b");
    assert!(!scheduler.is_available_for(&light, 0));
}

#[test]
fn a_poll_reaches_for_the_segments_once_it_has_an_answer() {
    let mut scheduler = scheduler();
    assert_eq!(scheduler.poll("light", None, &Ok(()), 0).len(), 6);
    assert!(scheduler.poll("light", None, &Ok(()), 0).is_empty());
    assert_eq!(scheduler.poll("light", Some(3), &Ok(()), 0).len(), 2);
    assert!(scheduler
        .poll("other", None, &Err(SessionError::Other), 0)
        .is_empty());
    assert_eq!(
        breaker_for(&scheduler, "other")
            .unwrap()
            .consecutive_failures,
        1
    );
}

fn notification(data: &str) -> JobResult {
    JobResult {
        kind: "notify".to_string(),
        data: Some(data.to_string()),
    }
}

#[test]
fn notifications_become_the_state_of_the_device() {
    let mut light = device("H6127", "AA:BB:CC:DD:EE:FF:11:22");
    let frames = [
        govee::ble::finish(vec![0xaa, 0x01, 0x01]),
        govee::ble::finish(vec![0xaa, 0x04, 42]),
        govee::ble::finish(vec![0xaa, 0x05, 0x0d, 1, 2, 3]),
    ];
    let mut results: Vec<JobResult> = frames
        .iter()
        .map(|frame| notification(&data_encoding::BASE64.encode(frame)))
        .collect();
    // Noise costs nothing.
    results.push(notification("%"));
    let now = Timestamp { secs: 5, nanos: 0 };
    let outcome = apply_notifications_at(&mut light, &results, now);
    assert!(outcome.changed);
    let state = light.device_state().unwrap();
    assert!(state.on);
    assert_eq!(state.brightness, 42);
    assert_eq!(state.color, DeviceColor { r: 1, g: 2, b: 3 });
    assert_eq!(state.updated, now);

    // The same again is no news, and a colour that is all zero is none at all.
    let outcome = apply_notifications_at(&mut light, &results, now);
    assert!(!outcome.changed);
    let black = data_encoding::BASE64.encode(&govee::ble::finish(vec![0xaa, 0x05, 0x0d]));
    assert!(!apply_notifications(&mut light, &[notification(&black)]).changed);
    assert_eq!(
        light.device_state().unwrap().color,
        DeviceColor { r: 1, g: 2, b: 3 }
    );
}

#[test]
fn failures_are_counted_whenever_they_come() {
    let mut scheduler = scheduler();
    let failed = SessionError::JobFailed(JobFailed {
        kind: ErrorKind::GattError,
        message: "no".to_string(),
    });
    for (now, open_until) in [
        (1_000, None),
        (70_000, None),
        (90_000, Some(390_000)),
        (500_000, Some(800_000)),
    ] {
        scheduler.note_failure("light", &failed, now);
        let breaker = breaker_for(&scheduler, "light").unwrap();
        assert_eq!(breaker.open_until_ms, open_until);
    }
    assert_eq!(
        breaker_for(&scheduler, "light").unwrap().consecutive_failures,
        4
    );
}

#[test]
fn callers_are_released_before_the_read_back() {
    let mut scheduler = scheduler();
    let light = device("H6072", "AA:BB:CC:DD:EE:FF:42:2A");
    scheduler
        .apply(&light, "AA", &[DeviceOp::PowerOn(true)], 1)
        .unwrap();
    let due = scheduler.take_due(&light.id).unwrap();
    let steps = scheduler.after_session(&due, true);
    assert!(matches!(
        steps[..],
        [
            SessionStep::NoteSuccess,
            SessionStep::Believe,
            SessionStep::Release,
            SessionStep::ReadBack(_)
        ]
    ));
    assert!(matches!(
        scheduler.after_session(&due, false)[..],
        [SessionStep::NoteFailure, SessionStep::Release]
    ));
    scheduler.config.verify_writes = false;
    assert_eq!(scheduler.after_session(&due, true).len(), 3);
}
