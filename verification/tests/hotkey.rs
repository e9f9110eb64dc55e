use gesture_timetrack::i18n::{CurrentLang, Lang};
use gesture_timetrack::shortcut::{parse, HotkeyStatus};

#[test]
fn erkennt_gueltige_und_unbrauchbare_kombinationen() {
    assert!(parse("CommandOrControl+Alt+Space").is_ok());
    assert!(parse("CommandOrControl+Shift+G").is_ok());
    assert!(parse("F13").is_ok());

    assert!(parse("").is_err());
    assert!(parse("Leertaste").is_err());
    assert!(parse("Strg+Ö").is_err());
}

#[test]
fn blanks_around_a_combination_do_not_count() {
    assert!(parse("  CommandOrControl+Shift+G  ").is_ok());
    let error = parse("Leertaste").unwrap_err();
    assert_eq!(error.message(Lang::En), "Invalid key combination: Leertaste");
}

#[test]
fn a_failed_registration_keeps_the_restored_combination() {
    let mut status = HotkeyStatus::default();
    status.registered(" CommandOrControl+Alt+Space ");
    assert_eq!(status.get().active.as_deref(), Some("CommandOrControl+Alt+Space"));
    assert!(status.get().error.is_none());

    let lang = CurrentLang { lang: Lang::En };
    let error = status.failed(&lang, "F13", Some("CommandOrControl+Alt+Space".to_string()));
    assert_eq!(status.get().active.as_deref(), Some("CommandOrControl+Alt+Space"));
    let text = status.get().error.unwrap();
    assert!(text.contains("F13"), "{text}");
    assert_eq!(error.message(Lang::De), text);
}

#[test]
fn a_switch_falls_back_on_the_combination_active_before() {
    let mut status = HotkeyStatus::default();
    let first = status.switch_to("CommandOrControl+Alt+Space").unwrap();
    assert!(first.fallback.is_none());
    status.registered(" CommandOrControl+Alt+Space ");
    let second = status.switch_to("F13").unwrap();
    assert_eq!(second.fallback.map(|(text, _)| text), Some("CommandOrControl+Alt+Space".to_string()));
    assert!(status.switch_to("Leertaste").is_err());
}
