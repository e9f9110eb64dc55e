use gesture_timetrack::i18n::{current, messages, msg, msg_error, set_current, t, ta, CurrentLang, Lang};

#[test]
fn sprachkennungen_werden_gelesen() {
    assert_eq!(Lang::parse("de"), Lang::De);
    assert_eq!(Lang::parse("EN"), Lang::En);
    assert_eq!(Lang::parse(" en "), Lang::En);
    assert_eq!(Lang::parse("fr"), Lang::De);
    assert_eq!(Lang::parse(""), Lang::De);
}

#[test]
fn jede_meldung_ist_vollstaendig_und_einmalig() {
    let table = messages();
    let mut keys: Vec<&str> = table.iter().map(|(key, _, _)| *key).collect();
    let count = keys.len();
    keys.sort_unstable();
    keys.dedup();
    assert_eq!(keys.len(), count, "doppelte Kennung in der Tabelle");

    for (key, de, en) in table {
        assert!(!de.trim().is_empty(), "{key}: deutsche Fassung fehlt");
        assert!(!en.trim().is_empty(), "{key}: englische Fassung fehlt");
    }
}

#[test]
fn aktuelle_sprache_ist_umschaltbar() {
    let mut lang = CurrentLang::default();
    set_current(&mut lang, Lang::En);
    assert_eq!(current(&lang), Lang::En);
    assert_eq!(msg(&lang, "track.pause"), "Break");

    set_current(&mut lang, Lang::De);
    assert_eq!(msg(&lang, "track.pause"), "Pause");
    assert_eq!(msg_error(&lang, "db.error", "kaputt"), "Datenbankfehler: kaputt");
}

#[test]
fn platzhalter_werden_ersetzt() {
    let text = ta(Lang::De, "track.start", &[("name", "Kunde Meier")]);
    assert_eq!(text, "Start: Kunde Meier");
    assert_eq!(ta(Lang::En, "track.start", &[("name", "Acme")]), "Started: Acme");

    assert_eq!(t(Lang::De, "gibt.es.nicht"), "gibt.es.nicht");
}

fn placeholders(text: &str) -> Vec<String> {
    let mut found: Vec<String> = text
        .split('{')
        .skip(1)
        .filter_map(|part| part.split('}').next().map(|name| name.to_string()))
        .collect();
    found.sort();
    found
}

#[test]
fn platzhalter_stimmen_in_beiden_sprachen_ueberein() {
    for (key, de, en) in messages() {
        assert_eq!(placeholders(de), placeholders(en), "{key}: Platzhalter unterscheiden sich");
    }
}

#[test]
fn codes_read_back_as_their_language() {
    assert_eq!(Lang::parse(Lang::De.code()), Lang::De);
    assert_eq!(Lang::parse(Lang::En.code()), Lang::En);
    assert_eq!(CurrentLang::default().lang, Lang::De);
}

#[test]
fn several_placeholders_are_all_filled() {
    let text = ta(Lang::En, "track.stop", &[("name", "Acme"), ("time", "00:01:00")]);
    assert_eq!(text, "Stopped: Acme (00:01:00)");
}

#[test]
fn a_session_out_of_range_has_a_message_in_both_languages() {
    assert_eq!(t(Lang::En, "track.out_of_range"), "The times of the running session are out of range.");
    assert_eq!(
        t(Lang::De, "track.out_of_range"),
        "Die Zeiten der laufenden Erfassung liegen außerhalb des darstellbaren Bereichs."
    );
}
