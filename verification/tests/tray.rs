use gesture_timetrack::i18n::{CurrentLang, Lang};
use gesture_timetrack::state::{SlotInfo, Snapshot, TrackerStatus};
use gesture_timetrack::tray::{
    project_item_id, project_item_label, project_of_menu_id, shorten, status_line, tick, title, tooltip, TickAction,
    FULL_REFRESH_EVERY, TITLE_NAME_LIMIT,
};

fn snapshot(status: TrackerStatus, project: Option<&str>, elapsed: i64) -> Snapshot {
    let lang = CurrentLang { lang: Lang::De };
    Snapshot {
        status,
        status_label: status.label(&lang),
        project_id: project.map(|_| 1),
        project_name: project.map(|name| name.to_string()),
        project_color: None,
        active_slot: Some(1),
        elapsed_seconds: elapsed,
        pause_seconds: 0,
        today_seconds: 0,
        slots: Vec::<SlotInfo>::new(),
    }
}

#[test]
fn menueleiste_zeigt_projekt_und_zeit() {
    let running = snapshot(TrackerStatus::Running, Some("Kunde Meier"), 3661);
    assert_eq!(title(&running).unwrap(), "Kunde Meier · 01:01:01");

    let paused = snapshot(TrackerStatus::Paused, Some("Kunde Meier"), 60);
    assert!(title(&paused).unwrap().starts_with("‖ "));

    assert!(title(&snapshot(TrackerStatus::Idle, None, 0)).is_none());
}

#[test]
fn lange_projektnamen_werden_gekuerzt() {
    assert_eq!(shorten("Kunde Meier"), "Kunde Meier");
    let long = shorten("Kunde Mustermann IOT Projekt");
    assert!(long.chars().count() <= TITLE_NAME_LIMIT, "{long}");
    assert!(long.ends_with('…'), "{long}");
}

#[test]
fn shortening_drops_trailing_blanks_before_the_ellipsis() {
    assert_eq!(shorten("Kunde Mustermann IOT Projekt"), "Kunde Musterman…");
    assert_eq!(shorten("Kunde Meier     xyz"), "Kunde Meier…");
}

#[test]
fn status_line_and_tooltip_follow_the_state() {
    let de = CurrentLang { lang: Lang::De };
    assert_eq!(status_line(&de, &snapshot(TrackerStatus::Idle, None, 0)), "Gestoppt");
    assert_eq!(
        status_line(&de, &snapshot(TrackerStatus::Running, Some("Acme"), 61)),
        "Acme · 00:01:01"
    );
    assert_eq!(
        status_line(&de, &snapshot(TrackerStatus::Paused, Some("Acme"), 61)),
        "Acme · Pause (00:01:01)"
    );
    let tip = tooltip(&de, &snapshot(TrackerStatus::Running, Some("Acme"), 5));
    assert_eq!(tip, "Acme - läuft\nLaufend: 00:00:05\nHeute: 00:00:00");
}

#[test]
fn the_running_project_is_marked_and_cannot_be_chosen() {
    let en = CurrentLang { lang: Lang::En };
    let snap = snapshot(TrackerStatus::Running, Some("Acme"), 5);
    assert_eq!(project_item_label(&en, &snap, 1, "Acme"), ("Acme (running)".to_string(), false));
    assert_eq!(project_item_label(&en, &snap, 2, "Other"), ("Other".to_string(), true));
}

#[test]
fn menu_ids_name_their_project() {
    assert_eq!(project_item_id(42), "project:42");
    assert_eq!(project_of_menu_id("project:42"), Some(42));
    assert_eq!(project_of_menu_id("project:x"), None);
    assert_eq!(project_of_menu_id("stop"), None);
}

#[test]
fn the_clock_ticks_only_while_tracking_and_refreshes_fully_every_thirtieth_time() {
    assert_eq!(tick(TrackerStatus::Idle, 7), (7, TickAction::Skip));
    assert_eq!(tick(TrackerStatus::Running, 0), (1, TickAction::Clock));
    assert_eq!(tick(TrackerStatus::Paused, 29), (30, TickAction::Full));
    assert_eq!(tick(TrackerStatus::Running, 30), (31, TickAction::Clock));
    assert_eq!(tick(TrackerStatus::Running, u32::MAX), (0, TickAction::Full));
    assert_eq!(FULL_REFRESH_EVERY, 30);
}
