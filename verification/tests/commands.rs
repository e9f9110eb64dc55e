use gesture_timetrack::clock::Moment;
use gesture_timetrack::commands::settings::{configured_camera_url, test_camera_url};
use gesture_timetrack::commands::training::{check_action, custom_gesture_actions, training, MIN_SAMPLES};
use gesture_timetrack::commands::{low_confidence_message, new_state, slot_message, AppState};
use gesture_timetrack::db::Db;
use gesture_timetrack::i18n::{CurrentLang, Lang};
use gesture_timetrack::state::{recover_session_at, EntryInput, Gesture, Session, Tracker, TrackerStatus};

fn at(secs: i64) -> Moment {
    Moment { secs, local: secs }
}

const T0: i64 = 1_786_000_000;

fn english() -> AppState {
    let mut state = new_state(Db::new());
    state.current_lang.lang = Lang::En;
    state
}

#[test]
fn start_pause_resume_stop_books_the_working_time() {
    let mut state = english();
    let p = state.create_project("Acme", "#000000").unwrap().id;

    assert_eq!(state.start_session_at(p, false, at(T0)).unwrap(), "Started: Acme");
    assert_eq!(state.tracker.status(), TrackerStatus::Running);
    assert_eq!(state.pause_session_at(at(T0 + 600)).unwrap(), "Break");
    assert_eq!(state.pause_session_at(at(T0 + 700)).unwrap_err().message(Lang::En), "Tracking is already paused.");
    assert_eq!(state.resume_session_at(at(T0 + 900)).unwrap(), "Resumed");
    assert_eq!(state.tracker.get().unwrap().pause_seconds, 300);
    assert_eq!(state.stop_session_at(at(T0 + 3600)).unwrap(), "Stopped: Acme (00:55:00)");
    assert_eq!(state.tracker.status(), TrackerStatus::Idle);

    let entry = state.db.entry(1).unwrap().unwrap();
    assert_eq!(entry.duration_seconds, 3300);
    assert_eq!(entry.pause_duration_seconds, 300);
    assert!(entry.end_ts.is_some());
    assert_eq!(state.stop_session_at(at(T0 + 4000)).unwrap_err().message(Lang::En), "No tracking is running right now.");
}

#[test]
fn switching_projects_closes_the_running_entry() {
    let mut state = english();
    let a = state.create_project("A", "#000000").unwrap().id;
    let b = state.create_project("B", "#000000").unwrap().id;
    state.start_session_at(a, true, at(T0)).unwrap();
    assert_eq!(state.start_session_at(a, true, at(T0 + 10)).unwrap_err().message(Lang::En), "“A” is already running.");
    state.start_session_at(b, true, at(T0 + 60)).unwrap();

    let first = state.db.entry(1).unwrap().unwrap();
    assert_eq!(first.duration_seconds, 60);
    assert!(first.end_ts.is_some());
    let second = state.db.entry(2).unwrap().unwrap();
    assert!(second.end_ts.is_none());
    assert_eq!(state.tracker.get().unwrap().project_id, b);
    // The project of slot 2 became the active slot.
    assert_eq!(state.db.setting("active_slot").unwrap().as_deref(), Some("2"));
}

#[test]
fn new_projects_land_on_the_free_slots() {
    let mut state = english();
    let a = state.create_project("A", "#000000").unwrap().id;
    let b = state.create_project("B", "#000000").unwrap().id;
    let c = state.create_project("C", "#000000").unwrap().id;
    assert_eq!(state.db.setting("slot_1_project_id").unwrap(), Some(a.to_string()));
    assert_eq!(state.db.setting("slot_2_project_id").unwrap(), Some(b.to_string()));
    assert!(c > b);
    state.set_slot(2, None).unwrap();
    assert_eq!(state.db.setting("slot_2_project_id").unwrap(), Some(String::new()));
    assert!(state.set_slot(3, Some(a)).is_err());
}

#[test]
fn gestures_drive_the_state_machine() {
    let mut state = english();
    let a = state.create_project("A", "#000000").unwrap().id;
    let b = state.create_project("B", "#000000").unwrap().id;

    let outcome = state.apply_gesture_at(Gesture::OpenHand, None, at(T0)).unwrap();
    assert!(outcome.accepted);
    assert_eq!(outcome.message, "Started: A");
    assert_eq!(outcome.snapshot.status, TrackerStatus::Running);
    assert_eq!(outcome.snapshot.project_id, Some(a));
    assert_eq!(outcome.gesture_label, "Open hand");

    let outcome = state.apply_gesture_at(Gesture::TwoFingers, None, at(T0 + 60)).unwrap();
    assert_eq!(outcome.message, "Switched to B (slot 2)");
    assert_eq!(state.tracker.get().unwrap().project_id, b);

    let outcome = state.apply_gesture_at(Gesture::ThumbUp, None, at(T0 + 120)).unwrap();
    assert_eq!(outcome.snapshot.status, TrackerStatus::Paused);
    let outcome = state.apply_gesture_at(Gesture::TwoFingers, None, at(T0 + 180)).unwrap();
    assert_eq!(outcome.message, "B resumed (slot 2)");
    let outcome = state.apply_gesture_at(Gesture::TwoFingers, None, at(T0 + 200)).unwrap();
    assert_eq!(outcome.message, "Slot 2: B (already running)");

    let outcome = state.apply_gesture_at(Gesture::OpenHand, None, at(T0 + 240)).unwrap();
    assert!(!outcome.accepted);
    assert_eq!(outcome.message, "Tracking is already running.");

    let outcome = state.apply_gesture_at(Gesture::Fist, Some(("42", "85")), at(T0 + 300)).unwrap();
    assert!(!outcome.accepted);
    assert_eq!(outcome.snapshot.status, TrackerStatus::Running);

    let outcome = state.apply_gesture_at(Gesture::Fist, None, at(T0 + 300)).unwrap();
    assert!(outcome.accepted);
    assert_eq!(outcome.snapshot.status, TrackerStatus::Idle);
    assert_eq!(outcome.snapshot.slots.len(), 2);
}

#[test]
fn custom_gestures_run_through_the_same_operations() {
    let mut state = english();
    let a = state.create_project("A", "#000000").unwrap().id;
    let list = state.create_custom_gesture("Winken", "project", Some(a)).unwrap();
    assert_eq!(list.len(), 1);
    let id = list[0].id;
    let outcome = state.apply_custom_gesture_at(id, None, at(T0)).unwrap();
    assert!(outcome.accepted);
    assert_eq!(outcome.gesture_label, "Winken");
    assert_eq!(outcome.gesture, None);
    assert_eq!(state.tracker.get().unwrap().project_id, a);
    assert!(state.apply_custom_gesture_at(id + 1, None, at(T0)).is_err());
    assert!(state.create_custom_gesture("Leer", "project", None).is_err());
    assert!(state.create_custom_gesture("Leer", "tanzen", None).is_err());
    assert_eq!(state.delete_custom_gesture(id).unwrap().len(), 0);
}

#[test]
fn the_running_entry_and_project_are_protected() {
    let mut state = english();
    let a = state.create_project("A", "#000000").unwrap().id;
    state.start_session_at(a, false, at(T0)).unwrap();
    let running = state.tracker.get().unwrap().entry_id;
    assert_eq!(state.delete_entry(running).unwrap_err().message(Lang::En), "This is the running entry - please stop tracking first.");
    assert!(state.delete_project(a).is_err());
    let input = EntryInput {
        project_id: a,
        start: "2026-08-19T09:00".to_string(),
        end: "2026-08-19T10:00".to_string(),
        pause_minutes: 0,
    };
    assert!(state.update_entry(running, &input).is_err());
    let manual = state.create_entry(&input).unwrap();
    let entry = state.db.entry(manual).unwrap().unwrap();
    assert_eq!(entry.duration_seconds, 3600);
    state.delete_entry(manual).unwrap();
    assert!(state.db.entry(manual).unwrap().is_none());
    let missing = EntryInput { project_id: 99, ..input };
    assert_eq!(state.create_entry(&missing).unwrap_err().message(Lang::En), "This project does not exist.");
}

#[test]
fn a_recent_session_is_resumed_paused_and_an_old_one_closed() {
    let mut db = Db::new();
    let p = db.create_project("P", "#000000").unwrap();
    db.open_entry(p, &at(T0), true).unwrap();
    let mut tracker = Tracker::default();
    recover_session_at(&mut db, &mut tracker, at(T0 + 3600)).unwrap();
    let session: Session = tracker.get().unwrap();
    assert_eq!(session.paused_at, Some(at(T0 + 3600)));
    assert_eq!(session.start.local, T0);

    let mut tracker = Tracker::default();
    recover_session_at(&mut db, &mut tracker, at(T0 + 13 * 3600)).unwrap();
    assert!(tracker.get().is_none());
    let entry = db.entry(1).unwrap().unwrap();
    assert_eq!(entry.duration_seconds, 0);
    assert!(entry.end_ts.is_some());
}

#[test]
fn training_is_complete_with_enough_samples_of_every_gesture() {
    let mut state = english();
    let sample = (10usize, serde_json::to_string(&vec![0.1f64; 10]).unwrap());
    let samples = vec![sample; MIN_SAMPLES as usize];
    for name in ["open_hand", "fist", "thumb_up", "one_finger"] {
        let t = state.record_gesture_samples(name, 2, &samples).unwrap();
        assert!(!t.complete);
    }
    let t = state.record_gesture_samples("two_fingers", 2, &samples).unwrap();
    assert!(t.complete);
    assert_eq!(t.counts.len(), 5);
    assert!(training(&state.db).unwrap().complete);

    assert!(state.record_gesture_samples("winken", 2, &samples).is_err());
    assert!(state.record_gesture_samples("fist", 1, &samples).is_err());
    let bad = vec![(3usize, "[1,2,3]".to_string())];
    assert_eq!(
        state.record_gesture_samples("fist", 2, &bad).unwrap_err().message(Lang::En),
        "Unexpected number of features: 3 instead of 10."
    );

    state.set_setting("use_training", "1").unwrap();
    let t = state.clear_gesture_training(Some("fist")).unwrap();
    assert!(!t.complete);
    assert_eq!(state.db.setting("use_training").unwrap().as_deref(), Some("0"));
}

#[test]
fn settings_are_trimmed_and_the_language_switches_at_once() {
    let mut state = new_state(Db::new());
    state.set_setting("language", " EN ").unwrap();
    assert_eq!(state.current_lang.lang, Lang::En);
    assert_eq!(state.db.setting("language").unwrap().as_deref(), Some("EN"));
    assert!(state.set_setting("camera_url", "rtsp://x").is_err());
    state.set_setting("camera_source", "network").unwrap();
    state.set_setting("camera_url", " http://192.168.1.20:4747/video ").unwrap();
    assert_eq!(configured_camera_url(&state.db).as_deref(), Some("http://192.168.1.20:4747/video"));
    state.current_lang.lang = Lang::De;
    let values = state.get_settings();
    assert_eq!(state.current_lang.lang, Lang::En);
    assert_eq!(values.language, "en");
    assert_eq!(values.overlay_timeout_ms, 3000);
    assert!(values.sound_cue);
    assert_eq!(values.hotkey_combination, "CommandOrControl+Alt+Space");
    assert_eq!(values.camera_source, "network");
    assert_eq!(test_camera_url("  ").unwrap_err().message(Lang::En), "Please enter an address first.");
    assert_eq!(test_camera_url(" http://a ").unwrap(), "http://a");
}

#[test]
fn actions_and_messages_for_the_interface() {
    let en = CurrentLang { lang: Lang::En };
    let actions = custom_gesture_actions(&en);
    assert_eq!(actions.len(), 7);
    assert_eq!(actions[4].key, "slot_1");
    assert!(actions[6].needs_project);
    assert!(check_action("project", None).is_err());
    assert!(check_action("stop", None).is_ok());
    assert_eq!(slot_message(&en, "slot.start", 1, "A"), "Started: A (slot 1)");
    assert!(low_confidence_message(&en, "42", "85").contains("42"));
}

#[test]
fn the_tray_pause_button_toggles() {
    let mut state = english();
    let p = state.create_project("Acme", "#000000").unwrap().id;
    assert!(state.toggle_pause_at(at(T0)).is_none());
    state.start_session_at(p, false, at(T0)).unwrap();
    assert_eq!(state.toggle_pause_at(at(T0 + 60)).unwrap().unwrap(), "Break");
    assert_eq!(state.tracker.status(), TrackerStatus::Paused);
    assert_eq!(state.toggle_pause_at(at(T0 + 120)).unwrap().unwrap(), "Resumed");
    assert_eq!(state.tracker.status(), TrackerStatus::Running);
    assert_eq!(state.tracker.get().unwrap().pause_seconds, 60);
}
