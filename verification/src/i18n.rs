//! Translations of everything the application writes for its user.
//!
//! One table holds each message in German and English side by side, looked up
//! by a key; placeholders such as `{name}` are filled in afterwards. An
//! unknown key comes back unchanged, so a missing translation shows at once.

use vstd::prelude::*;
use vstd::string::*;

use crate::text::{chars_of, lower_ascii_text, owned, replace_chars, replaced, str_eq, string_of, to_ascii_lowercase, trim, trimmed};

verus! {

/// Language of the interface and of all messages.
#[derive(Debug, Clone, Copy, PartialEq, Eq, Structural)]
pub enum Lang {
    De,
    En,
}

impl Lang {
    pub open spec fn spec_code(self) -> Seq<char> {
        match self {
            Lang::De => "de"@,
            Lang::En => "en"@,
        }
    }

    /// The language code as stored in the settings.
    pub fn code(&self) -> (r: &'static str)
        ensures
            r@ == self.spec_code(),
    {
        match self {
            Lang::De => "de",
            Lang::En => "en",
        }
    }

    /// Reads a stored language code: `en` in any case and with surrounding
    /// white space is English, everything else German.
    pub fn parse(raw: &str) -> (r: Lang)
        ensures
            r == lang_of_code(raw@),
    {
        let t = trim(raw);
        let lowered = to_ascii_lowercase(t.as_str());
        if str_eq(lowered.as_str(), "en") {
            Lang::En
        } else {
            Lang::De
        }
    }
}

/// The language a stored code names: `en` in any case and with surrounding
/// white space is English, everything else German.
pub open spec fn lang_of_code(raw: Seq<char>) -> Lang {
    if lower_ascii_text(trimmed(raw)) == "en"@ {
        Lang::En
    } else {
        Lang::De
    }
}

/// Every language is read back from its own code.
pub proof fn law_lang_code_round_trip(lang: Lang)
    ensures
        lang_of_code(lang.spec_code()) == lang,
{
    reveal_strlit("en");
    reveal_strlit("de");
    let c = lang.spec_code();
    assert(crate::text::first_non_space(c, 1) == 1 || c.len() != 2);
    assert(crate::text::first_non_space(c, 0) == 0);
    assert(crate::text::last_non_space(c, 0, 2) == 2);
    assert(trimmed(c) =~= c);
    assert(lower_ascii_text(c) =~= c);
}

/// The language the running program writes its messages in.
pub struct CurrentLang {
    pub lang: Lang,
}

impl Default for CurrentLang {
    fn default() -> (r: Self)
        ensures
            r.lang == Lang::De,
    {
        CurrentLang { lang: Lang::De }
    }
}

/// Switches the language of all following messages.
pub fn set_current(current_lang: &mut CurrentLang, lang: Lang)
    ensures
        final(current_lang).lang == lang,
{
    current_lang.lang = lang;
}

/// The language currently in force.
pub fn current(current_lang: &CurrentLang) -> (r: Lang)
    ensures
        r == current_lang.lang,
{
    current_lang.lang
}

/// Number of entries in the message table.
pub const MESSAGE_COUNT: usize = 107;

/// Entry `i` of the message table: key, German text, English text.
pub open spec fn message(i: int) -> (Seq<char>, Seq<char>, Seq<char>) {
    if i == 0 {
        ("project.name_empty"@, "Der Projektname darf nicht leer sein."@, "The project name cannot be empty."@)
    } else if i == 1 {
        ("project.missing"@, "Dieses Projekt existiert nicht."@, "This project does not exist."@)
    } else if i == 2 {
        ("project.gone"@, "Dieses Projekt existiert nicht mehr."@, "This project no longer exists."@)
    } else if i == 3 {
        ("project.running"@, "Für dieses Projekt läuft gerade eine Erfassung."@, "Tracking is currently running for this project."@)
    } else if i == 4 {
        ("project.unreadable"@, "Projekt konnte nicht gelesen werden."@, "The project could not be read."@)
    } else if i == 5 {
        ("track.already_running"@, "Die Erfassung läuft bereits."@, "Tracking is already running."@)
    } else if i == 6 {
        ("track.not_running"@, "Es läuft gerade keine Erfassung."@, "No tracking is running right now."@)
    } else if i == 7 {
        ("track.already_paused"@, "Die Erfassung pausiert bereits."@, "Tracking is already paused."@)
    } else if i == 8 {
        ("track.project_running"@, "„{name}“ läuft bereits."@, "“{name}” is already running."@)
    } else if i == 9 {
        ("track.start"@, "Start: {name}"@, "Started: {name}"@)
    } else if i == 10 {
        ("track.stop"@, "Stopp: {name} ({time})"@, "Stopped: {name} ({time})"@)
    } else if i == 11 {
        ("track.pause"@, "Pause"@, "Break"@)
    } else if i == 12 {
        ("track.resume"@, "Weiter"@, "Resumed"@)
    } else if i == 13 {
        ("track.project_fallback"@, "Projekt"@, "Project"@)
    } else if i == 14 {
        ("slot.only_two"@, "Es gibt im MVP nur die Slots 1 und 2."@, "Only slots 1 and 2 exist in this version."@)
    } else if i == 15 {
        ("slot.unassigned"@, "Slot {slot} ist keinem Projekt zugeordnet - bitte im Hauptfenster festlegen."@, "Slot {slot} has no project assigned - please set one in the main window."@)
    } else if i == 16 {
        ("slot.start"@, "Start: {name} (Slot {slot})"@, "Started: {name} (slot {slot})"@)
    } else if i == 17 {
        ("slot.resumed"@, "{name} fortgesetzt (Slot {slot})"@, "{name} resumed (slot {slot})"@)
    } else if i == 18 {
        ("slot.already_running"@, "Slot {slot}: {name} (läuft bereits)"@, "Slot {slot}: {name} (already running)"@)
    } else if i == 19 {
        ("slot.switched"@, "Wechsel zu {name} (Slot {slot})"@, "Switched to {name} (slot {slot})"@)
    } else if i == 20 {
        ("slot.switched_from_pause"@, "Aus Pause gewechselt zu {name} (Slot {slot})"@, "Switched from break to {name} (slot {slot})"@)
    } else if i == 21 {
        ("slot.no_project"@, "Kein Projekt auf Slot 1 oder 2 - bitte im Hauptfenster zuordnen."@, "No project on slot 1 or 2 - please assign one in the main window."@)
    } else if i == 22 {
        ("gesture.unknown"@, "Unbekannte Geste: {name}"@, "Unknown gesture: {name}"@)
    } else if i == 23 {
        ("gesture.low_confidence"@, "Nicht sicher genug ({value} % < {threshold} %)"@, "Not confident enough ({value}% < {threshold}%)"@)
    } else if i == 24 {
        ("gesture.custom_gone"@, "Diese eigene Geste existiert nicht mehr."@, "This custom gesture no longer exists."@)
    } else if i == 25 {
        ("gesture.custom_no_project"@, "Dieser Geste ist kein Projekt zugeordnet."@, "This gesture has no project assigned."@)
    } else if i == 26 {
        ("gesture.custom_needs_name"@, "Die Geste braucht einen Namen."@, "The gesture needs a name."@)
    } else if i == 27 {
        ("gesture.action_unknown"@, "Unbekannte Aktion: {name}"@, "Unknown action: {name}"@)
    } else if i == 28 {
        ("gesture.action_needs_project"@, "Für „bestimmtes Projekt starten“ muss ein Projekt gewählt sein."@, "“Start a specific project” requires a project."@)
    } else if i == 29 {
        ("gesture.no_samples"@, "Keine brauchbare Aufnahme - war die Hand im Bild?"@, "No usable recording - was your hand in frame?"@)
    } else if i == 30 {
        ("gesture.feature_mismatch"@, "Die Aufnahme passt nicht zum aktuellen Merkmalssatz."@, "The recording does not match the current feature set."@)
    } else if i == 31 {
        ("gesture.feature_count"@, "Unerwartete Merkmalszahl: {found} statt {expected}."@, "Unexpected number of features: {found} instead of {expected}."@)
    } else if i == 32 {
        ("gesture.open_hand"@, "Offene Hand"@, "Open hand"@)
    } else if i == 33 {
        ("gesture.fist"@, "Faust"@, "Fist"@)
    } else if i == 34 {
        ("gesture.thumb_up"@, "Daumen hoch"@, "Thumbs up"@)
    } else if i == 35 {
        ("gesture.one_finger"@, "Ein Finger"@, "One finger"@)
    } else if i == 36 {
        ("gesture.two_fingers"@, "Zwei Finger"@, "Two fingers"@)
    } else if i == 37 {
        ("action.start"@, "Start"@, "Start"@)
    } else if i == 38 {
        ("action.stop"@, "Stopp"@, "Stop"@)
    } else if i == 39 {
        ("action.pause"@, "Pause"@, "Pause"@)
    } else if i == 40 {
        ("action.resume"@, "Weiter"@, "Resume"@)
    } else if i == 41 {
        ("action.slot_1"@, "Projekt-Slot 1"@, "Project slot 1"@)
    } else if i == 42 {
        ("action.slot_2"@, "Projekt-Slot 2"@, "Project slot 2"@)
    } else if i == 43 {
        ("action.project"@, "bestimmtes Projekt starten"@, "start a specific project"@)
    } else if i == 44 {
        ("entry.gone"@, "Dieser Eintrag existiert nicht mehr."@, "This entry no longer exists."@)
    } else if i == 45 {
        ("entry.is_running"@, "Das ist der laufende Eintrag - bitte zuerst die Erfassung stoppen."@, "This is the running entry - please stop tracking first."@)
    } else if i == 46 {
        ("entry.end_before_start"@, "Das Ende muss nach dem Beginn liegen."@, "The end must be after the start."@)
    } else if i == 47 {
        ("entry.negative_pause"@, "Die Pause kann nicht negativ sein."@, "The break cannot be negative."@)
    } else if i == 48 {
        ("entry.pause_too_long"@, "Die Pause ist länger als der Eintrag selbst."@, "The break is longer than the entry itself."@)
    } else if i == 49 {
        ("entry.bad_timestamp"@, "„{value}“ ist keine gültige Zeitangabe."@, "“{value}” is not a valid date and time."@)
    } else if i == 50 {
        ("entry.ambiguous_timestamp"@, "Mehrdeutige Zeitangabe: {value}"@, "Ambiguous date and time: {value}"@)
    } else if i == 51 {
        ("entry.deleted_project"@, "(gelöscht)"@, "(deleted)"@)
    } else if i == 52 {
        ("camera.url_scheme"@, "Die Adresse muss mit http:// oder https:// beginnen, z. B. http://192.168.1.20:4747/video"@, "The address must start with http:// or https://, e.g. http://192.168.1.20:4747/video"@)
    } else if i == 53 {
        ("camera.url_incomplete"@, "Die Adresse ist unvollständig."@, "The address is incomplete."@)
    } else if i == 54 {
        ("camera.url_missing"@, "Bitte zuerst eine Adresse eintragen."@, "Please enter an address first."@)
    } else if i == 55 {
        ("camera.unreachable"@, "Netzwerk-Kamera nicht erreichbar: {error}"@, "Network camera not reachable: {error}"@)
    } else if i == 56 {
        ("camera.aborted"@, "Verbindung zur Netzwerk-Kamera abgebrochen: {error}"@, "Connection to the network camera was lost: {error}"@)
    } else if i == 57 {
        ("camera.probe_aborted"@, "Verbindung abgebrochen: {error}"@, "Connection lost: {error}"@)
    } else if i == 58 {
        ("camera.html_response"@, "Die Adresse liefert eine Webseite statt eines Videostreams. Häufigste Ursache: der Stream ist schon von einem anderen Programm belegt (Kamera-App am Rechner, Browser-Tab, OBS). Sonst die Stream-Adresse prüfen - bei DroidCam etwa http://<ip>:4747/video oder http://<ip>:4747/mjpegfeed."@, "The address returns a web page instead of a video stream. Most likely the stream is already in use by another program (a desktop camera app, a browser tab, OBS). Otherwise check the stream address - with DroidCam it is usually http://<ip>:4747/video or http://<ip>:4747/mjpegfeed."@)
    } else if i == 59 {
        ("camera.wrong_type"@, "Die Adresse liefert „{type}“ statt Bilddaten - bitte die Stream-Adresse prüfen."@, "The address returns “{type}” instead of image data - please check the stream address."@)
    } else if i == 60 {
        ("camera.no_frame"@, "Verbunden, aber es kam kein vollständiges Bild an."@, "Connected, but no complete frame arrived."@)
    } else if i == 61 {
        ("camera.probe_ok"@, "Verbindung steht: {kind}, erstes Bild {size}."@, "Connection works: {kind}, first frame {size}."@)
    } else if i == 62 {
        ("camera.kind_stream"@, "Videostream"@, "video stream"@)
    } else if i == 63 {
        ("camera.kind_still"@, "Einzelbild"@, "single frame"@)
    } else if i == 64 {
        ("camera.pixels"@, "{width} × {height} Pixel"@, "{width} × {height} pixels"@)
    } else if i == 65 {
        ("hotkey.invalid"@, "Ungültige Tastenkombination: {value}"@, "Invalid key combination: {value}"@)
    } else if i == 66 {
        ("hotkey.taken"@, "Die Tastenkombination {value} ist bereits von einem anderen Programm belegt."@, "The key combination {value} is already used by another program."@)
    } else if i == 67 {
        ("window.overlay_missing"@, "Overlay-Fenster wurde nicht gefunden."@, "The overlay window was not found."@)
    } else if i == 68 {
        ("window.main_missing"@, "Hauptfenster wurde nicht gefunden."@, "The main window was not found."@)
    } else if i == 69 {
        ("window.panel_missing"@, "Menüleisten-Fenster wurde nicht gefunden."@, "The menu bar window was not found."@)
    } else if i == 70 {
        ("db.error"@, "Datenbankfehler: {error}"@, "Database error: {error}"@)
    } else if i == 71 {
        ("db.io"@, "Dateifehler: {error}"@, "File error: {error}"@)
    } else if i == 72 {
        ("db.csv"@, "CSV-Fehler: {error}"@, "CSV error: {error}"@)
    } else if i == 73 {
        ("db.window"@, "Fensterfehler: {error}"@, "Window error: {error}"@)
    } else if i == 74 {
        ("db.features_unreadable"@, "Merkmale unlesbar: {error}"@, "Features could not be read: {error}"@)
    } else if i == 75 {
        ("db.bad_timestamp"@, "Ungültiger Zeitstempel: {value}"@, "Invalid timestamp: {value}"@)
    } else if i == 76 {
        ("tray.stopped"@, "Gestoppt"@, "Stopped"@)
    } else if i == 77 {
        ("tray.break"@, "{name} · Pause ({time})"@, "{name} · break ({time})"@)
    } else if i == 78 {
        ("tray.today"@, "Heute erfasst: {time}"@, "Tracked today: {time}"@)
    } else if i == 79 {
        ("tray.start_project"@, "Projekt starten"@, "Start project"@)
    } else if i == 80 {
        ("tray.switch_project"@, "Projekt wechseln"@, "Switch project"@)
    } else if i == 81 {
        ("tray.no_projects"@, "Noch keine Projekte"@, "No projects yet"@)
    } else if i == 82 {
        ("tray.project_running"@, "{name} (läuft)"@, "{name} (running)"@)
    } else if i == 83 {
        ("tray.project_paused"@, "{name} (pausiert)"@, "{name} (on break)"@)
    } else if i == 84 {
        ("tray.stop"@, "Erfassung stoppen"@, "Stop tracking"@)
    } else if i == 85 {
        ("tray.pause"@, "Pausieren"@, "Pause"@)
    } else if i == 86 {
        ("tray.resume"@, "Fortsetzen"@, "Resume"@)
    } else if i == 87 {
        ("tray.gesture"@, "Geste erfassen"@, "Capture gesture"@)
    } else if i == 88 {
        ("tray.window"@, "Fenster öffnen"@, "Open window"@)
    } else if i == 89 {
        ("tray.quit"@, "Beenden"@, "Quit"@)
    } else if i == 90 {
        ("tray.tooltip_idle"@, "Gesture TimeTrack - gestoppt\nHeute: {today}"@, "Gesture TimeTrack - stopped\nToday: {today}"@)
    } else if i == 91 {
        ("tray.tooltip_active"@, "{name} - {status}\nLaufend: {running}\nHeute: {today}"@, "{name} - {status}\nRunning: {running}\nToday: {today}"@)
    } else if i == 92 {
        ("status.idle"@, "gestoppt"@, "stopped"@)
    } else if i == 93 {
        ("status.running"@, "läuft"@, "running"@)
    } else if i == 94 {
        ("status.paused"@, "pausiert"@, "on break"@)
    } else if i == 95 {
        ("csv.date"@, "Datum"@, "Date"@)
    } else if i == 96 {
        ("csv.project"@, "Projekt"@, "Project"@)
    } else if i == 97 {
        ("csv.start"@, "Beginn"@, "Start"@)
    } else if i == 98 {
        ("csv.end"@, "Ende"@, "End"@)
    } else if i == 99 {
        ("csv.duration"@, "Dauer (hh:mm:ss)"@, "Duration (hh:mm:ss)"@)
    } else if i == 100 {
        ("csv.hours"@, "Dauer (Stunden)"@, "Duration (hours)"@)
    } else if i == 101 {
        ("csv.break"@, "Pause (Minuten)"@, "Break (minutes)"@)
    } else if i == 102 {
        ("csv.gesture"@, "Per Geste"@, "By gesture"@)
    } else if i == 103 {
        ("csv.running"@, "läuft"@, "running"@)
    } else if i == 104 {
        ("csv.yes"@, "ja"@, "yes"@)
    } else if i == 105 {
        ("csv.no"@, "nein"@, "no"@)
    } else if i == 106 {
        ("track.out_of_range"@, "Die Zeiten der laufenden Erfassung liegen außerhalb des darstellbaren Bereichs."@, "The times of the running session are out of range."@)
    } else {
        (Seq::empty(), Seq::empty(), Seq::empty())
    }
}

/// Entry `i` of the message table.
pub fn message_at(i: usize) -> (r: (&'static str, &'static str, &'static str))
    requires
        i < MESSAGE_COUNT,
    ensures
        (r.0@, r.1@, r.2@) == message(i as int),
{
    if i == 0 {
        ("project.name_empty", "Der Projektname darf nicht leer sein.", "The project name cannot be empty.")
    } else if i == 1 {
        ("project.missing", "Dieses Projekt existiert nicht.", "This project does not exist.")
    } else if i == 2 {
        ("project.gone", "Dieses Projekt existiert nicht mehr.", "This project no longer exists.")
    } else if i == 3 {
        ("project.running", "Für dieses Projekt läuft gerade eine Erfassung.", "Tracking is currently running for this project.")
    } else if i == 4 {
        ("project.unreadable", "Projekt konnte nicht gelesen werden.", "The project could not be read.")
    } else if i == 5 {
        ("track.already_running", "Die Erfassung läuft bereits.", "Tracking is already running.")
    } else if i == 6 {
        ("track.not_running", "Es läuft gerade keine Erfassung.", "No tracking is running right now.")
    } else if i == 7 {
        ("track.already_paused", "Die Erfassung pausiert bereits.", "Tracking is already paused.")
    } else if i == 8 {
        ("track.project_running", "„{name}“ läuft bereits.", "“{name}” is already running.")
    } else if i == 9 {
        ("track.start", "Start: {name}", "Started: {name}")
    } else if i == 10 {
        ("track.stop", "Stopp: {name} ({time})", "Stopped: {name} ({time})")
    } else if i == 11 {
        ("track.pause", "Pause", "Break")
    } else if i == 12 {
        ("track.resume", "Weiter", "Resumed")
    } else if i == 13 {
        ("track.project_fallback", "Projekt", "Project")
    } else if i == 14 {
        ("slot.only_two", "Es gibt im MVP nur die Slots 1 und 2.", "Only slots 1 and 2 exist in this version.")
    } else if i == 15 {
        ("slot.unassigned", "Slot {slot} ist keinem Projekt zugeordnet - bitte im Hauptfenster festlegen.", "Slot {slot} has no project assigned - please set one in the main window.")
    } else if i == 16 {
        ("slot.start", "Start: {name} (Slot {slot})", "Started: {name} (slot {slot})")
    } else if i == 17 {
        ("slot.resumed", "{name} fortgesetzt (Slot {slot})", "{name} resumed (slot {slot})")
    } else if i == 18 {
        ("slot.already_running", "Slot {slot}: {name} (läuft bereits)", "Slot {slot}: {name} (already running)")
    } else if i == 19 {
        ("slot.switched", "Wechsel zu {name} (Slot {slot})", "Switched to {name} (slot {slot})")
    } else if i == 20 {
        ("slot.switched_from_pause", "Aus Pause gewechselt zu {name} (Slot {slot})", "Switched from break to {name} (slot {slot})")
    } else if i == 21 {
        ("slot.no_project", "Kein Projekt auf Slot 1 oder 2 - bitte im Hauptfenster zuordnen.", "No project on slot 1 or 2 - please assign one in the main window.")
    } else if i == 22 {
        ("gesture.unknown", "Unbekannte Geste: {name}", "Unknown gesture: {name}")
    } else if i == 23 {
        ("gesture.low_confidence", "Nicht sicher genug ({value} % < {threshold} %)", "Not confident enough ({value}% < {threshold}%)")
    } else if i == 24 {
        ("gesture.custom_gone", "Diese eigene Geste existiert nicht mehr.", "This custom gesture no longer exists.")
    } else if i == 25 {
        ("gesture.custom_no_project", "Dieser Geste ist kein Projekt zugeordnet.", "This gesture has no project assigned.")
    } else if i == 26 {
        ("gesture.custom_needs_name", "Die Geste braucht einen Namen.", "The gesture needs a name.")
    } else if i == 27 {
        ("gesture.action_unknown", "Unbekannte Aktion: {name}", "Unknown action: {name}")
    } else if i == 28 {
        ("gesture.action_needs_project", "Für „bestimmtes Projekt starten“ muss ein Projekt gewählt sein.", "“Start a specific project” requires a project.")
    } else if i == 29 {
        ("gesture.no_samples", "Keine brauchbare Aufnahme - war die Hand im Bild?", "No usable recording - was your hand in frame?")
    } else if i == 30 {
        ("gesture.feature_mismatch", "Die Aufnahme passt nicht zum aktuellen Merkmalssatz.", "The recording does not match the current feature set.")
    } else if i == 31 {
        ("gesture.feature_count", "Unerwartete Merkmalszahl: {found} statt {expected}.", "Unexpected number of features: {found} instead of {expected}.")
    } else if i == 32 {
        ("gesture.open_hand", "Offene Hand", "Open hand")
    } else if i == 33 {
        ("gesture.fist", "Faust", "Fist")
    } else if i == 34 {
        ("gesture.thumb_up", "Daumen hoch", "Thumbs up")
    } else if i == 35 {
        ("gesture.one_finger", "Ein Finger", "One finger")
    } else if i == 36 {
        ("gesture.two_fingers", "Zwei Finger", "Two fingers")
    } else if i == 37 {
        ("action.start", "Start", "Start")
    } else if i == 38 {
        ("action.stop", "Stopp", "Stop")
    } else if i == 39 {
        ("action.pause", "Pause", "Pause")
    } else if i == 40 {
        ("action.resume", "Weiter", "Resume")
    } else if i == 41 {
        ("action.slot_1", "Projekt-Slot 1", "Project slot 1")
    } else if i == 42 {
        ("action.slot_2", "Projekt-Slot 2", "Project slot 2")
    } else if i == 43 {
        ("action.project", "bestimmtes Projekt starten", "start a specific project")
    } else if i == 44 {
        ("entry.gone", "Dieser Eintrag existiert nicht mehr.", "This entry no longer exists.")
    } else if i == 45 {
        ("entry.is_running", "Das ist der laufende Eintrag - bitte zuerst die Erfassung stoppen.", "This is the running entry - please stop tracking first.")
    } else if i == 46 {
        ("entry.end_before_start", "Das Ende muss nach dem Beginn liegen.", "The end must be after the start.")
    } else if i == 47 {
        ("entry.negative_pause", "Die Pause kann nicht negativ sein.", "The break cannot be negative.")
    } else if i == 48 {
        ("entry.pause_too_long", "Die Pause ist länger als der Eintrag selbst.", "The break is longer than the entry itself.")
    } else if i == 49 {
        ("entry.bad_timestamp", "„{value}“ ist keine gültige Zeitangabe.", "“{value}” is not a valid date and time.")
    } else if i == 50 {
        ("entry.ambiguous_timestamp", "Mehrdeutige Zeitangabe: {value}", "Ambiguous date and time: {value}")
    } else if i == 51 {
        ("entry.deleted_project", "(gelöscht)", "(deleted)")
    } else if i == 52 {
        ("camera.url_scheme", "Die Adresse muss mit http:// oder https:// beginnen, z. B. http://192.168.1.20:4747/video", "The address must start with http:// or https://, e.g. http://192.168.1.20:4747/video")
    } else if i == 53 {
        ("camera.url_incomplete", "Die Adresse ist unvollständig.", "The address is incomplete.")
    } else if i == 54 {
        ("camera.url_missing", "Bitte zuerst eine Adresse eintragen.", "Please enter an address first.")
    } else if i == 55 {
        ("camera.unreachable", "Netzwerk-Kamera nicht erreichbar: {error}", "Network camera not reachable: {error}")
    } else if i == 56 {
        ("camera.aborted", "Verbindung zur Netzwerk-Kamera abgebrochen: {error}", "Connection to the network camera was lost: {error}")
    } else if i == 57 {
        ("camera.probe_aborted", "Verbindung abgebrochen: {error}", "Connection lost: {error}")
    } else if i == 58 {
        ("camera.html_response", "Die Adresse liefert eine Webseite statt eines Videostreams. Häufigste Ursache: der Stream ist schon von einem anderen Programm belegt (Kamera-App am Rechner, Browser-Tab, OBS). Sonst die Stream-Adresse prüfen - bei DroidCam etwa http://<ip>:4747/video oder http://<ip>:4747/mjpegfeed.", "The address returns a web page instead of a video stream. Most likely the stream is already in use by another program (a desktop camera app, a browser tab, OBS). Otherwise check the stream address - with DroidCam it is usually http://<ip>:4747/video or http://<ip>:4747/mjpegfeed.")
    } else if i == 59 {
        ("camera.wrong_type", "Die Adresse liefert „{type}“ statt Bilddaten - bitte die Stream-Adresse prüfen.", "The address returns “{type}” instead of image data - please check the stream address.")
    } else if i == 60 {
        ("camera.no_frame", "Verbunden, aber es kam kein vollständiges Bild an.", "Connected, but no complete frame arrived.")
    } else if i == 61 {
        ("camera.probe_ok", "Verbindung steht: {kind}, erstes Bild {size}.", "Connection works: {kind}, first frame {size}.")
    } else if i == 62 {
        ("camera.kind_stream", "Videostream", "video stream")
    } else if i == 63 {
        ("camera.kind_still", "Einzelbild", "single frame")
    } else if i == 64 {
        ("camera.pixels", "{width} × {height} Pixel", "{width} × {height} pixels")
    } else if i == 65 {
        ("hotkey.invalid", "Ungültige Tastenkombination: {value}", "Invalid key combination: {value}")
    } else if i == 66 {
        ("hotkey.taken", "Die Tastenkombination {value} ist bereits von einem anderen Programm belegt.", "The key combination {value} is already used by another program.")
    } else if i == 67 {
        ("window.overlay_missing", "Overlay-Fenster wurde nicht gefunden.", "The overlay window was not found.")
    } else if i == 68 {
        ("window.main_missing", "Hauptfenster wurde nicht gefunden.", "The main window was not found.")
    } else if i == 69 {
        ("window.panel_missing", "Menüleisten-Fenster wurde nicht gefunden.", "The menu bar window was not found.")
    } else if i == 70 {
        ("db.error", "Datenbankfehler: {error}", "Database error: {error}")
    } else if i == 71 {
        ("db.io", "Dateifehler: {error}", "File error: {error}")
    } else if i == 72 {
        ("db.csv", "CSV-Fehler: {error}", "CSV error: {error}")
    } else if i == 73 {
        ("db.window", "Fensterfehler: {error}", "Window error: {error}")
    } else if i == 74 {
        ("db.features_unreadable", "Merkmale unlesbar: {error}", "Features could not be read: {error}")
    } else if i == 75 {
        ("db.bad_timestamp", "Ungültiger Zeitstempel: {value}", "Invalid timestamp: {value}")
    } else if i == 76 {
        ("tray.stopped", "Gestoppt", "Stopped")
    } else if i == 77 {
        ("tray.break", "{name} · Pause ({time})", "{name} · break ({time})")
    } else if i == 78 {
        ("tray.today", "Heute erfasst: {time}", "Tracked today: {time}")
    } else if i == 79 {
        ("tray.start_project", "Projekt starten", "Start project")
    } else if i == 80 {
        ("tray.switch_project", "Projekt wechseln", "Switch project")
    } else if i == 81 {
        ("tray.no_projects", "Noch keine Projekte", "No projects yet")
    } else if i == 82 {
        ("tray.project_running", "{name} (läuft)", "{name} (running)")
    } else if i == 83 {
        ("tray.project_paused", "{name} (pausiert)", "{name} (on break)")
    } else if i == 84 {
        ("tray.stop", "Erfassung stoppen", "Stop tracking")
    } else if i == 85 {
        ("tray.pause", "Pausieren", "Pause")
    } else if i == 86 {
        ("tray.resume", "Fortsetzen", "Resume")
    } else if i == 87 {
        ("tray.gesture", "Geste erfassen", "Capture gesture")
    } else if i == 88 {
        ("tray.window", "Fenster öffnen", "Open window")
    } else if i == 89 {
        ("tray.quit", "Beenden", "Quit")
    } else if i == 90 {
        ("tray.tooltip_idle", "Gesture TimeTrack - gestoppt\nHeute: {today}", "Gesture TimeTrack - stopped\nToday: {today}")
    } else if i == 91 {
        ("tray.tooltip_active", "{name} - {status}\nLaufend: {running}\nHeute: {today}", "{name} - {status}\nRunning: {running}\nToday: {today}")
    } else if i == 92 {
        ("status.idle", "gestoppt", "stopped")
    } else if i == 93 {
        ("status.running", "läuft", "running")
    } else if i == 94 {
        ("status.paused", "pausiert", "on break")
    } else if i == 95 {
        ("csv.date", "Datum", "Date")
    } else if i == 96 {
        ("csv.project", "Projekt", "Project")
    } else if i == 97 {
        ("csv.start", "Beginn", "Start")
    } else if i == 98 {
        ("csv.end", "Ende", "End")
    } else if i == 99 {
        ("csv.duration", "Dauer (hh:mm:ss)", "Duration (hh:mm:ss)")
    } else if i == 100 {
        ("csv.hours", "Dauer (Stunden)", "Duration (hours)")
    } else if i == 101 {
        ("csv.break", "Pause (Minuten)", "Break (minutes)")
    } else if i == 102 {
        ("csv.gesture", "Per Geste", "By gesture")
    } else if i == 103 {
        ("csv.running", "läuft", "running")
    } else if i == 104 {
        ("csv.yes", "ja", "yes")
    } else if i == 105 {
        ("csv.no", "nein", "no")
    } else {
        ("track.out_of_range", "Die Zeiten der laufenden Erfassung liegen außerhalb des darstellbaren Bereichs.", "The times of the running session are out of range.")
    }
}

/// The whole message table, in order.
pub fn messages() -> (r: Vec<(&'static str, &'static str, &'static str)>)
    ensures
        r.len() == MESSAGE_COUNT,
        forall|i: int| 0 <= i < MESSAGE_COUNT ==> (r[i].0@, r[i].1@, r[i].2@) == message(i),
{
    let mut r: Vec<(&'static str, &'static str, &'static str)> = Vec::new();
    let mut i: usize = 0;
    while i < MESSAGE_COUNT
        invariant
            i <= MESSAGE_COUNT,
            r.len() == i,
            forall|j: int| 0 <= j < i ==> (r[j].0@, r[j].1@, r[j].2@) == message(j),
        decreases MESSAGE_COUNT - i,
    {
        r.push(message_at(i));
        i = i + 1;
    }
    r
}

/// Index of the first table entry with the given key, searching from `i` on.
pub open spec fn lookup_from(key: Seq<char>, i: int) -> Option<int>
    decreases MESSAGE_COUNT - i,
{
    if i < 0 || i >= MESSAGE_COUNT {
        None
    } else if message(i).0 == key {
        Some(i)
    } else {
        lookup_from(key, i + 1)
    }
}

/// The message for `key` in `lang`; the key itself when the table lacks it.
pub open spec fn translated(lang: Lang, key: Seq<char>) -> Seq<char> {
    match lookup_from(key, 0) {
        Some(i) => if lang == Lang::De {
            message(i).1
        } else {
            message(i).2
        },
        None => key,
    }
}

/// The placeholder `{name}`.
pub open spec fn placeholder(name: Seq<char>) -> Seq<char> {
    seq!['{'] + name + seq!['}']
}

/// Fills the placeholders in order: each `{name}` is replaced by its value.
pub open spec fn filled(text: Seq<char>, args: Seq<(Seq<char>, Seq<char>)>) -> Seq<char>
    decreases args.len(),
{
    if args.len() == 0 {
        text
    } else {
        filled(replaced(text, placeholder(args[0].0), args[0].1), args.skip(1))
    }
}

/// Translation of one message.
pub fn t(lang: Lang, key: &str) -> (r: String)
    ensures
        r@ == translated(lang, key@),
{
    let mut i: usize = 0;
    while i < MESSAGE_COUNT
        invariant
            i <= MESSAGE_COUNT,
            lookup_from(key@, 0) == lookup_from(key@, i as int),
        decreases MESSAGE_COUNT - i,
    {
        let entry = message_at(i);
        if str_eq(entry.0, key) {
            return if lang == Lang::De {
                owned(entry.1)
            } else {
                owned(entry.2)
            };
        }
        i = i + 1;
    }
    owned(key)
}

/// Replaces the placeholders of `text` with the given values, in order.
pub fn fill(text: String, args: &Vec<(String, String)>) -> (r: String)
    ensures
        r@ == filled(text@, args.deep_view()),
{
    let ghost all = args.deep_view();
    let mut cur: Vec<char> = chars_of(text.as_str());
    let mut i: usize = 0;
    assert(all.skip(0) =~= all);
    while i < args.len()
        invariant
            i <= args.len(),
            all == args.deep_view(),
            all.len() == args.len(),
            filled(text@, all) == filled(cur@, all.skip(i as int)),
        decreases args.len() - i,
    {
        let mut pattern: Vec<char> = Vec::new();
        pattern.push('{');
        let name = chars_of(args[i].0.as_str());
        pattern.append(&mut name.clone());
        pattern.push('}');
        let value = chars_of(args[i].1.as_str());
        assert(pattern@ =~= placeholder(all[i as int].0));
        let next = replace_chars(&cur, &pattern, &value);
        assert(all.skip(i as int).skip(1) =~= all.skip(i + 1));
        cur = next;
        i = i + 1;
    }
    string_of(&cur)
}

/// Translation with placeholders: `{name}` is replaced by its value.
pub fn ta(lang: Lang, key: &str, args: &[(&str, &str)]) -> (r: String)
    ensures
        r@ == filled(translated(lang, key@), args@.map_values(|p: (&str, &str)| (p.0@, p.1@))),
{
    let mut owned_args: Vec<(String, String)> = Vec::new();
    let mut i: usize = 0;
    while i < args.len()
        invariant
            i <= args.len(),
            owned_args.deep_view() == args@.take(i as int).map_values(|p: (&str, &str)| (p.0@, p.1@)),
        decreases args.len() - i,
    {
        let ghost before = owned_args.deep_view();
        let (name, value) = args[i];
        let pair = (owned(name), owned(value));
        owned_args.push(pair);
        assert(owned_args.deep_view() =~= before.push((name@, value@)));
        i = i + 1;
        assert(owned_args.deep_view() =~= args@.take(i as int).map_values(|p: (&str, &str)| (p.0@, p.1@)));
    }
    assert(args@.take(args.len() as int) =~= args@);
    fill(t(lang, key), &owned_args)
}

/// Message in the current language.
pub fn msg(current_lang: &CurrentLang, key: &str) -> (r: String)
    ensures
        r@ == translated(current_lang.lang, key@),
{
    t(current_lang.lang, key)
}

/// Message with placeholders in the current language.
pub fn msg_args(current_lang: &CurrentLang, key: &str, args: &Vec<(String, String)>) -> (r: String)
    ensures
        r@ == filled(translated(current_lang.lang, key@), args.deep_view()),
{
    fill(t(current_lang.lang, key), args)
}

/// Message that embeds a foreign error text as `{error}`.
pub fn msg_error(current_lang: &CurrentLang, key: &str, error: &str) -> (r: String)
    ensures
        r@ == filled(translated(current_lang.lang, key@), seq![("error"@, error@)]),
{
    let args = vec![(owned("error"), owned(error))];
    assert(args.deep_view() =~= seq![("error"@, error@)]);
    msg_args(current_lang, key, &args)
}

/// The language stored in the settings; German when none is stored.
pub open spec fn stored_lang(db: &crate::db::Db) -> Lang {
    match db.setting_value(crate::state::KEY_LANGUAGE@) {
        Some(raw) => lang_of_code(raw),
        None => Lang::De,
    }
}

/// The language stored in the settings.
pub fn lang(db: &crate::db::Db) -> (r: Lang)
    requires
        db.wf(),
    ensures
        r == stored_lang(db),
{
    match db.setting(crate::state::KEY_LANGUAGE) {
        Ok(Some(value)) => Lang::parse(value.as_str()),
        _ => Lang::De,
    }
}

/// Takes the language over from the settings.
pub fn load_current(current_lang: &mut CurrentLang, db: &crate::db::Db)
    requires
        db.wf(),
    ensures
        final(current_lang).lang == stored_lang(db),
{
    set_current(current_lang, lang(db));
}

} // verus!
