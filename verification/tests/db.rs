use gesture_timetrack::clock::{day_of, moment_at, now, Moment};
use gesture_timetrack::db::tables::Tables;
use gesture_timetrack::db::{sql_date_exec, Db, EntryRow, Project};

fn shifted(m: &Moment, seconds: i64) -> Moment {
    moment_at(m.secs + seconds).unwrap()
}

#[test]
fn projekte_anlegen_lesen_und_deaktivieren() {
    let mut db = Db::new();

    let id = db.create_project("Kunde Meier", "#4f46e5").unwrap();
    assert_eq!(db.projects(true).unwrap().len(), 1);

    db.update_project(id, "Kunde Meier – Website", "#16a34a", false).unwrap();
    assert!(db.projects(true).unwrap().is_empty());
    assert_eq!(db.projects(false).unwrap().len(), 1);

    let project = db.project(id).unwrap().unwrap();
    assert_eq!(project.name, "Kunde Meier – Website");
    assert!(!project.active);
}

#[test]
fn leerer_projektname_wird_abgelehnt() {
    let mut db = Db::new();
    assert!(db.create_project("   ", "#000000").is_err());
}

#[test]
fn projekt_mit_zeiten_wird_nur_deaktiviert() {
    let mut db = Db::new();

    let leer = db.create_project("Ohne Zeiten", "#000000").unwrap();
    let genutzt = db.create_project("Mit Zeiten", "#000000").unwrap();
    let entry = db.open_entry(genutzt, &now(), true).unwrap();
    db.close_entry(entry, &now(), 0, 60).unwrap();

    assert!(db.delete_project(leer).unwrap(), "leeres Projekt löschbar");
    assert!(!db.delete_project(genutzt).unwrap(), "Projekt mit Zeiten darf nicht verschwinden");
    assert!(db.project(genutzt).unwrap().is_some());
    assert!(!db.project(genutzt).unwrap().unwrap().active);
}

#[test]
fn tagessumme_zaehlt_nur_abgeschlossene_eintraege() {
    let mut db = Db::new();
    let now = now();
    let today = day_of(&now);

    let project = db.create_project("Projekt", "#4f46e5").unwrap();
    let closed = db.open_entry(project, &shifted(&now, -2 * 3600), true).unwrap();
    db.close_entry(closed, &shifted(&now, -3600), 300, 3300).unwrap();
    db.open_entry(project, &now, true).unwrap();

    // The first entry may have started yesterday shortly after midnight.
    if day_of(&shifted(&now, -2 * 3600)) == today {
        assert_eq!(db.day_total(&today).unwrap(), 3300);
        let totals = db.totals_for_day(&today).unwrap();
        assert_eq!(totals.len(), 1);
        assert_eq!(totals[0].seconds, 3300);
        assert_eq!(totals[0].project_name, "Projekt");
    }
}

#[test]
fn eintraege_lassen_sich_anlegen_aendern_und_loeschen() {
    let mut db = Db::new();
    let now = now();
    let today = day_of(&now);

    let alt = db.create_project("Alt", "#000000").unwrap();
    let neu = db.create_project("Neu", "#111111").unwrap();

    let id = db.insert_entry(alt, &shifted(&now, -2 * 3600), &now, 1800, 5400).unwrap();
    let entry = db.entry(id).unwrap().unwrap();
    assert_eq!(entry.duration_seconds, 5400);
    assert!(!entry.gesture_triggered, "manuell erfasst");
    if day_of(&shifted(&now, -2 * 3600)) == today {
        assert_eq!(db.day_total(&today).unwrap(), 5400);
    }

    db.update_entry(id, neu, &shifted(&now, -3600), &now, 0, 3600).unwrap();
    let entry = db.entry(id).unwrap().unwrap();
    assert_eq!(entry.project_id, Some(neu));
    assert_eq!(entry.project_name, "Neu");
    assert_eq!(entry.pause_duration_seconds, 0);
    if day_of(&shifted(&now, -3600)) == today {
        assert_eq!(db.day_total(&today).unwrap(), 3600);
    }

    db.delete_entry(id).unwrap();
    assert!(db.entry(id).unwrap().is_none());
    assert_eq!(db.day_total(&today).unwrap(), 0);
}

#[test]
fn eintraege_werden_nach_datum_gefiltert() {
    let mut db = Db::new();
    let now = now();

    let project = db.create_project("Projekt", "#4f46e5").unwrap();
    let ten_days_ago = shifted(&now, -10 * 86400);
    let old = db.open_entry(project, &ten_days_ago, false).unwrap();
    db.close_entry(old, &ten_days_ago, 0, 600).unwrap();
    let recent = db.open_entry(project, &now, true).unwrap();
    db.close_entry(recent, &now, 0, 900).unwrap();

    let today = day_of(&now);
    let entries = db.entries_between(&today, &today, None).unwrap();
    assert_eq!(entries.len(), 1);
    assert_eq!(entries[0].duration_seconds, 900);
    assert!(entries[0].gesture_triggered);

    let von = day_of(&shifted(&now, -30 * 86400));
    assert_eq!(db.entries_between(&von, &today, None).unwrap().len(), 2);
}

#[test]
fn eintraege_lassen_sich_nach_projekt_filtern() {
    let mut db = Db::new();
    let now = now();
    let today = day_of(&now);

    let a = db.create_project("A", "#000000").unwrap();
    let b = db.create_project("B", "#111111").unwrap();
    for (project, seconds) in [(a, 600), (a, 300), (b, 900)] {
        let id = db.open_entry(project, &now, true).unwrap();
        db.close_entry(id, &now, 0, seconds).unwrap();
    }

    assert_eq!(db.entries_between(&today, &today, None).unwrap().len(), 3);
    let only_a = db.entries_between(&today, &today, Some(a)).unwrap();
    assert_eq!(only_a.len(), 2);
    assert!(only_a.iter().all(|entry| entry.project_name == "A"));
    assert_eq!(db.entries_between(&today, &today, Some(b)).unwrap().len(), 1);
}

#[test]
fn offener_eintrag_wird_gefunden() {
    let mut db = Db::new();
    let start = shifted(&now(), -90 * 60);

    let project = db.create_project("Projekt", "#4f46e5").unwrap();
    assert!(db.dangling_entry().unwrap().is_none());

    let entry = db.open_entry(project, &start, true).unwrap();
    let (id, found_project, found_start, pause) = db.dangling_entry().unwrap().unwrap();
    assert_eq!((id, found_project, pause), (entry, project, 0));
    assert!((found_start.secs - start.secs).abs() <= 1);

    db.close_entry(entry, &now(), 0, 5400).unwrap();
    assert!(db.dangling_entry().unwrap().is_none());
}

#[test]
fn veraltete_gestenaufnahmen_werden_entfernt() {
    let mut db = Db::new();
    let features = vec![serde_json::to_string(&vec![0.5f64; 10]).unwrap()];

    let eigene = db.create_custom_gesture("Handkante", "stop", None).unwrap();
    db.add_gesture_samples("open_hand", 1, &features).unwrap();
    db.add_gesture_samples("thumb_down", 1, &features).unwrap();
    db.add_gesture_samples(&format!("custom:{eigene}"), 1, &features).unwrap();

    let removed = db.prune_gesture_samples(&["open_hand", "fist", "thumb_up", "thumb_side"]).unwrap();
    assert_eq!(removed, 1);

    let labels: Vec<String> = db.gesture_samples(1).unwrap().into_iter().map(|sample| sample.gesture).collect();
    assert!(labels.contains(&"open_hand".to_string()));
    assert!(labels.contains(&format!("custom:{eigene}")));
    assert!(!labels.iter().any(|label| label == "thumb_down"));
}

#[test]
fn einstellungen_werden_ueberschrieben() {
    let mut db = Db::new();

    assert!(db.setting("hotkey").unwrap().is_none());
    db.set_setting("hotkey", "CommandOrControl+Alt+Space").unwrap();
    db.set_setting("hotkey", "CommandOrControl+Shift+T").unwrap();
    assert_eq!(db.setting("hotkey").unwrap().as_deref(), Some("CommandOrControl+Shift+T"));
}

fn row(id: i64, project_id: i64, start: &str, end: Option<&str>, duration: i64) -> EntryRow {
    EntryRow {
        id,
        project_id: Some(project_id),
        start_ts: start.to_string(),
        end_ts: end.map(|e| e.to_string()),
        pause_duration_seconds: 0,
        duration_seconds: Some(duration),
        gesture_triggered: true,
    }
}

fn project(id: i64, name: &str, active: bool) -> Project {
    Project { id, name: name.to_string(), color: "#000000".to_string(), active, created_at: String::new() }
}

fn loaded(projects: Vec<Project>, entries: Vec<EntryRow>) -> Db {
    Db::from_tables(Tables {
        projects,
        entries,
        settings: Vec::new(),
        gestures: Vec::new(),
        samples: Vec::new(),
        next_project: 100,
        next_entry: 100,
        next_gesture: 1,
        next_sample: 1,
    })
    .unwrap()
}

#[test]
fn totals_come_largest_first_and_count_unbooked_time() {
    let db = loaded(
        vec![project(1, "A", true), project(2, "B", true)],
        vec![
            row(1, 1, "2026-03-01 08:00:00", Some("2026-03-01 09:00:00"), 100),
            row(2, 2, "2026-03-01 09:00:00", Some("2026-03-01 10:00:00"), 500),
            row(3, 1, "2026-03-01 10:00:00", Some("2026-03-01 11:00:00"), 200),
            row(4, 1, "2026-03-02 10:00:00", Some("2026-03-02 11:00:00"), 999),
            row(5, 2, "2026-03-01 12:00:00", None, 0),
        ],
    );
    let totals = db.totals_for_day("2026-03-01").unwrap();
    assert_eq!(totals.len(), 2);
    assert_eq!((totals[0].project_id, totals[0].seconds), (Some(2), 500));
    assert_eq!((totals[1].project_id, totals[1].seconds), (Some(1), 300));
    assert_eq!(totals[1].project_name, "A");
    assert_eq!(totals[0].color, "#000000");
    assert_eq!(db.day_total("2026-03-01 17:30").unwrap(), 800);
    assert_eq!(db.day_total("kein Datum").unwrap(), 0);
}

#[test]
fn totals_overflow_is_an_error() {
    let db = loaded(
        vec![project(1, "A", true)],
        vec![
            row(1, 1, "2026-03-01 08:00:00", Some("2026-03-01 09:00:00"), i64::MAX),
            row(2, 1, "2026-03-01 09:00:00", Some("2026-03-01 10:00:00"), 1),
        ],
    );
    assert!(db.totals_for_day("2026-03-01").is_err());
    assert!(db.day_total("2026-03-01").is_err());
}

#[test]
fn projects_are_listed_active_first_then_by_name() {
    let db = loaded(
        vec![project(1, "beta", true), project(2, "Alpha", false), project(3, "alpha", true), project(4, "Gamma", true)],
        Vec::new(),
    );
    let names: Vec<String> = db.projects(false).unwrap().into_iter().map(|p| p.name).collect();
    assert_eq!(names, vec!["alpha", "beta", "Gamma", "Alpha"]);
    let active: Vec<i64> = db.projects(true).unwrap().into_iter().map(|p| p.id).collect();
    assert_eq!(active, vec![3, 1, 4]);
}

#[test]
fn entries_are_listed_latest_first() {
    let db = loaded(
        vec![project(1, "A", true)],
        vec![
            row(1, 1, "2026-03-01 08:00:00", Some("2026-03-01 09:00:00"), 1),
            row(2, 1, "2026-03-03 08:00:00", Some("2026-03-03 09:00:00"), 2),
            row(3, 1, "2026-03-02 08:00:00", Some("2026-03-02 09:00:00"), 3),
            row(4, 7, "2026-03-02 09:00:00", Some("2026-03-02 10:00:00"), 4),
        ],
    );
    let ids: Vec<i64> = db.entries_between("2026-03-01", "2026-03-02", None).unwrap().into_iter().map(|e| e.id).collect();
    assert_eq!(ids, vec![4, 3, 1]);
    let unknown = db.entry(4).unwrap().unwrap();
    assert_eq!(unknown.project_name, "");
}

#[test]
fn tables_with_repeated_ids_are_refused() {
    let refused = Db::from_tables(Tables {
        projects: vec![project(2, "A", true), project(2, "B", true)],
        entries: Vec::new(),
        settings: Vec::new(),
        gestures: Vec::new(),
        samples: Vec::new(),
        next_project: 3,
        next_entry: 1,
        next_gesture: 1,
        next_sample: 1,
    });
    assert!(refused.is_none());
    let db = loaded(vec![project(1, "A", true)], Vec::new());
    assert_eq!(db.project_rows().len(), 1);
    assert_eq!(db.next_id_values(), (100, 100, 1, 1));
}

#[test]
fn a_project_with_a_custom_gesture_cannot_be_deleted() {
    let mut db = Db::new();
    let p = db.create_project("P", "#000000").unwrap();
    db.create_custom_gesture("Winken", "project", Some(p)).unwrap();
    let e = db.delete_project(p).unwrap_err();
    assert_eq!(e.message(gesture_timetrack::i18n::Lang::En), "Database error: FOREIGN KEY constraint failed");
    assert!(db.create_custom_gesture("X", "project", Some(999)).is_err());
}

#[test]
fn days_are_read_as_sqlite_reads_them() {
    let chars = |s: &str| Some(s.chars().collect::<Vec<char>>());
    assert_eq!(sql_date_exec("2026-08-19 09:37:00"), chars("2026-08-19"));
    assert_eq!(sql_date_exec("2026-08-19T09:37"), chars("2026-08-19"));
    assert_eq!(sql_date_exec("2026-08-19"), chars("2026-08-19"));
    // A day that does not exist rolls over, as in SQLite.
    assert_eq!(sql_date_exec("2026-02-31"), chars("2026-03-03"));
    assert_eq!(sql_date_exec("kein Datum"), None);
}

#[test]
fn texts_that_sqlite_reads_as_the_current_time_name_no_day() {
    assert_eq!(sql_date_exec("now"), None);
    assert_eq!(sql_date_exec("NoW"), None);
    assert_eq!(sql_date_exec("subsec"), None);
    assert_eq!(sql_date_exec("SUBSECOND"), None);
    assert_eq!(sql_date_exec("now\0later"), None);
    assert_eq!(sql_date_exec("2026-08-19\0now"), Some("2026-08-19".chars().collect()));
}
