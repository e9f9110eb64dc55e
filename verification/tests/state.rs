use gesture_timetrack::clock::Moment;
use gesture_timetrack::i18n::Lang;
use gesture_timetrack::state::{
    custom_sample_key, format_hms, parse_custom_action, parse_custom_sample_key, parse_gesture, parse_input_ts,
    plan_between, plan_entry, settings_defaults, validate_camera_url, EntryInput, Session, Tracker, TrackerStatus,
    ALL_CUSTOM_ACTIONS, ALL_GESTURES,
};

/// A moment whose local time is one hour ahead of universal time.
fn at(secs: i64) -> Moment {
    Moment { secs, local: secs + 3600 }
}

const NOW: i64 = 1_786_000_000;

fn session_at(start: Moment) -> Session {
    Session { entry_id: 1, project_id: 1, start, pause_seconds: 0, paused_at: None }
}

#[test]
fn arbeitszeit_ist_bruttozeit_minus_pausen() {
    let now = at(NOW);
    let mut session = session_at(at(NOW - 60 * 60));
    session.pause_seconds = 15 * 60;

    assert_eq!(session.worked_seconds(now), 45 * 60);
    assert_eq!(session.total_pause_seconds(now), 15 * 60);
}

#[test]
fn laufende_pause_zaehlt_sofort_mit() {
    let now = at(NOW);
    let mut session = session_at(at(NOW - 30 * 60));
    session.paused_at = Some(at(NOW - 10 * 60));

    assert_eq!(session.total_pause_seconds(now), 10 * 60);
    assert_eq!(session.worked_seconds(now), 20 * 60);
}

#[test]
fn arbeitszeit_wird_nie_negativ() {
    let now = at(NOW);
    let mut session = session_at(at(NOW - 5 * 60));
    session.pause_seconds = 60 * 60;

    assert_eq!(session.worked_seconds(now), 0);
}

#[test]
fn aktionsnamen_passen_zur_serde_schreibweise() {
    for action in ALL_CUSTOM_ACTIONS {
        assert_eq!(parse_custom_action(action.key()).unwrap(), action);
    }
    assert!(parse_custom_action("loeschen").is_err());
    assert_eq!(
        parse_custom_action("loeschen").unwrap_err().message(Lang::En),
        "Unknown action: loeschen"
    );
}

#[test]
fn kennung_eigener_gesten_ist_umkehrbar() {
    assert_eq!(custom_sample_key(7), "custom:7");
    assert_eq!(parse_custom_sample_key("custom:7"), Some(7));
    assert_eq!(parse_custom_sample_key("open_hand"), None);
    assert_eq!(parse_custom_sample_key("custom:abc"), None);
}

#[test]
fn gestennamen_passen_zur_serde_schreibweise() {
    for gesture in ALL_GESTURES {
        assert_eq!(parse_gesture(gesture.key()).unwrap(), gesture);
    }
    assert!(parse_gesture("winken").is_err());
}

#[test]
fn zeitangaben_werden_in_beiden_schreibweisen_gelesen() {
    let a = parse_input_ts("2026-08-19T09:37").unwrap();
    let b = parse_input_ts("2026-08-19 09:37:00").unwrap();
    assert_eq!(a, b);

    assert!(parse_input_ts("19.08.2026 09:37").is_err());
    assert!(parse_input_ts("").is_err());
}

fn input(start: &str, end: &str, pause_minutes: i64) -> EntryInput {
    EntryInput { project_id: 1, start: start.to_string(), end: end.to_string(), pause_minutes }
}

#[test]
fn eintrag_wird_geprueft_und_netto_gerechnet() {
    let planned = plan_entry(&input("2026-08-19T09:00", "2026-08-19T11:00", 30)).unwrap();
    assert_eq!(planned.pause_seconds, 1800);
    assert_eq!(planned.duration_seconds, 5400, "2 h minus 30 min Pause");
}

#[test]
fn unmoegliche_eintraege_werden_abgelehnt() {
    assert!(plan_entry(&input("2026-08-19T11:00", "2026-08-19T09:00", 0)).is_err(), "Ende vor Beginn");
    assert!(plan_entry(&input("2026-08-19T11:00", "2026-08-19T11:00", 0)).is_err(), "Dauer null");
    assert!(
        plan_entry(&input("2026-08-19T09:00", "2026-08-19T10:00", 60)).is_err(),
        "Pause frisst den Eintrag"
    );
    assert!(plan_entry(&input("2026-08-19T09:00", "2026-08-19T10:00", -5)).is_err(), "negative Pause");
}

#[test]
fn kameraadresse_wird_auf_das_schema_geprueft() {
    assert!(validate_camera_url("").is_ok(), "leer = keine Netzwerk-Kamera");
    assert!(validate_camera_url("http://192.168.1.20:4747/video").is_ok());
    assert!(validate_camera_url("https://kamera.local/shot.jpg").is_ok());

    assert!(validate_camera_url("192.168.1.20:4747/video").is_err());
    assert!(validate_camera_url("rtsp://192.168.1.20/live").is_err());
}

#[test]
fn dauer_wird_als_hms_formatiert() {
    assert_eq!(format_hms(0), "00:00:00");
    assert_eq!(format_hms(59), "00:00:59");
    assert_eq!(format_hms(3661), "01:01:01");
    assert_eq!(format_hms(-5), "00:00:00");
}

#[test]
fn long_durations_keep_all_hour_digits() {
    assert_eq!(format_hms(100 * 3600 + 61), "100:01:01");
}

#[test]
fn each_refusal_of_an_entry_has_its_own_reason() {
    let start = at(NOW);
    let end = at(NOW + 3600);
    let e = plan_between(end, start, 0).unwrap_err();
    assert_eq!(e.message(Lang::En), "The end must be after the start.");
    let e = plan_between(start, end, -1).unwrap_err();
    assert_eq!(e.message(Lang::En), "The break cannot be negative.");
    let e = plan_between(start, end, 60).unwrap_err();
    assert_eq!(e.message(Lang::En), "The break is longer than the entry itself.");
    let p = plan_between(start, end, 59).unwrap();
    assert_eq!((p.pause_seconds, p.duration_seconds), (3540, 60));
    let e = plan_between(start, end, i64::MAX).unwrap_err();
    assert_eq!(e.message(Lang::En), "The break is longer than the entry itself.");
}

#[test]
fn a_bad_time_stamp_names_itself() {
    let e = parse_input_ts("morgen").unwrap_err();
    assert_eq!(e.message(Lang::En), "“morgen” is not a valid date and time.");
}

#[test]
fn incomplete_camera_addresses_are_refused() {
    let e = validate_camera_url(" http:// ").unwrap_err();
    assert_eq!(e.message(Lang::En), "The address is incomplete.");
    assert!(validate_camera_url("https://").is_ok());
}

#[test]
fn the_tracker_reports_its_status() {
    let mut tracker = Tracker::default();
    assert_eq!(tracker.status(), TrackerStatus::Idle);
    let mut session = session_at(at(NOW));
    tracker.set(Some(session));
    assert_eq!(tracker.status(), TrackerStatus::Running);
    session.paused_at = Some(at(NOW + 5));
    tracker.set(Some(session));
    assert_eq!(tracker.status(), TrackerStatus::Paused);
    assert_eq!(tracker.get(), Some(session));
}

#[test]
fn defaults_cover_every_setting() {
    let defaults = settings_defaults();
    assert_eq!(defaults.len(), 10);
    assert!(defaults.contains(&("confidence_threshold", "0.85".to_string())));
    assert!(defaults.contains(&("overlay_timeout_ms", "3000".to_string())));
    assert!(defaults.contains(&("camera_url", String::new())));
    assert!(defaults.contains(&("language", "de".to_string())));
}
