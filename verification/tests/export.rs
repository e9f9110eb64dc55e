use gesture_timetrack::clock::{day_of, now};
use gesture_timetrack::db::Db;
use gesture_timetrack::export::{delimiter, export_table, header};
use gesture_timetrack::i18n::Lang;

#[test]
fn the_table_holds_header_and_lines_oldest_first() {
    let mut db = Db::new();
    let now = now();
    let today = day_of(&now);
    let p = db.create_project("Kunde Meier", "#4f46e5").unwrap();
    let first = db.open_entry(p, &now, true).unwrap();
    db.close_entry(first, &now, 1800, 5400).unwrap();
    let second = db.open_entry(p, &now, false).unwrap();
    db.close_entry(second, &now, 0, 60).unwrap();

    let table = export_table(&db, &today, &today, None).unwrap();
    assert_eq!(table.lang, Lang::De);
    assert_eq!(table.delimiter, b';');
    assert_eq!(table.header[0], "Datum");
    assert_eq!(table.header.len(), 8);
    assert_eq!(table.rows.len(), 2);
    let row = &table.rows[0];
    assert_eq!(row.duration, "01:30:00");
    assert_eq!(row.duration_seconds, 5400);
    assert_eq!(row.pause_seconds, 1800);
    assert_eq!(row.project, "Kunde Meier");
    assert_eq!(row.gesture, "ja");
    assert_eq!(row.date, today);
    assert_eq!(table.rows[1].gesture, "nein");
}

#[test]
fn an_empty_period_gives_only_the_header() {
    let db = Db::new();
    let table = export_table(&db, "2020-01-01", "2020-01-02", None).unwrap();
    assert!(table.rows.is_empty());
    assert_eq!(header(Lang::En)[5], "Duration (hours)");
    assert_eq!(delimiter(Lang::En), b',');
}

#[test]
fn english_settings_give_an_english_export() {
    let mut db = Db::new();
    db.set_setting("language", "en").unwrap();
    let table = export_table(&db, "2020-01-01", "2020-01-02", None).unwrap();
    assert_eq!(table.lang, Lang::En);
    assert_eq!(table.delimiter, b',');
    assert_eq!(table.header[0], "Date");
}
