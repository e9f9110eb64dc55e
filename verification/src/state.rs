//! State of the tracking: status, gestures and their actions, the running
//! session, the settings the tracking reads, and the checks on entries that
//! are edited by hand.

use vstd::prelude::*;

use crate::clock::{day_of, naive_read, naive_text, now, read_local_moment, Moment, DAY_FORMAT, MINUTE_FORMAT, TS_FORMAT};
use crate::db::totals::{day_sum_all, fits_i64};
use crate::db::{
    entries_where, entry_closed, last_open, overflow_error, project_with, same_except_entries, view_opt_project, Db,
    EntryView, Project, ProjectView, RESUME_LIMIT_SECONDS,
};
use crate::error::{keyed, AppError, AppResult, ErrorView};
use crate::i18n::{msg, translated, CurrentLang};
use crate::text::{
    chars_of, concat, decimal, int_text, owned, parse_i64, parse_u8, parsed_i64, parsed_u8, push_two_digits, replace_chars,
    replaced, starts_with, str_eq, string_of, trim, trimmed, two_digits,
};

verus! {

/// What the tracking is doing.
#[derive(Debug, Clone, Copy, PartialEq, Eq, Structural)]
pub enum TrackerStatus {
    Idle,
    Running,
    Paused,
}

impl TrackerStatus {
    /// Message key of the status's label.
    pub open spec fn label_key(self) -> Seq<char> {
        match self {
            TrackerStatus::Idle => "status.idle"@,
            TrackerStatus::Running => "status.running"@,
            TrackerStatus::Paused => "status.paused"@,
        }
    }

    /// Label in the current language.
    pub fn label(&self, current_lang: &CurrentLang) -> (r: String)
        ensures
            r@ == translated(current_lang.lang, self.label_key()),
    {
        msg(
            current_lang,
            match self {
                TrackerStatus::Idle => "status.idle",
                TrackerStatus::Running => "status.running",
                TrackerStatus::Paused => "status.paused",
            },
        )
    }
}

/// The built-in gestures. The hand landmarks are classified elsewhere; only
/// the result arrives here.
#[derive(Debug, Clone, Copy, PartialEq, Eq, Structural)]
pub enum Gesture {
    /// Open hand, five fingers stretched.
    OpenHand,
    /// Fist, no finger stretched.
    Fist,
    ThumbUp,
    /// One finger stretched: project slot 1.
    OneFinger,
    /// Two fingers stretched: project slot 2.
    TwoFingers,
}

/// The whole vocabulary, which complete training is checked against.
pub const ALL_GESTURES: [Gesture; 5] = [
    Gesture::OpenHand,
    Gesture::Fist,
    Gesture::ThumbUp,
    Gesture::OneFinger,
    Gesture::TwoFingers,
];

impl Gesture {
    /// The name on the interface and in the database.
    pub open spec fn spec_key(self) -> Seq<char> {
        match self {
            Gesture::OpenHand => "open_hand"@,
            Gesture::Fist => "fist"@,
            Gesture::ThumbUp => "thumb_up"@,
            Gesture::OneFinger => "one_finger"@,
            Gesture::TwoFingers => "two_fingers"@,
        }
    }

    /// Message key of the gesture's label.
    pub open spec fn label_key(self) -> Seq<char> {
        match self {
            Gesture::OpenHand => "gesture.open_hand"@,
            Gesture::Fist => "gesture.fist"@,
            Gesture::ThumbUp => "gesture.thumb_up"@,
            Gesture::OneFinger => "gesture.one_finger"@,
            Gesture::TwoFingers => "gesture.two_fingers"@,
        }
    }

    /// The name on the interface and in the database.
    pub fn key(&self) -> (r: &'static str)
        ensures
            r@ == self.spec_key(),
    {
        match self {
            Gesture::OpenHand => "open_hand",
            Gesture::Fist => "fist",
            Gesture::ThumbUp => "thumb_up",
            Gesture::OneFinger => "one_finger",
            Gesture::TwoFingers => "two_fingers",
        }
    }

    /// Label for the feedback in the overlay, in the current language.
    pub fn label(&self, current_lang: &CurrentLang) -> (r: String)
        ensures
            r@ == translated(current_lang.lang, self.label_key()),
    {
        msg(
            current_lang,
            match self {
                Gesture::OpenHand => "gesture.open_hand",
                Gesture::Fist => "gesture.fist",
                Gesture::ThumbUp => "gesture.thumb_up",
                Gesture::OneFinger => "gesture.one_finger",
                Gesture::TwoFingers => "gesture.two_fingers",
            },
        )
    }
}

/// What a custom gesture triggers.
#[derive(Debug, Clone, Copy, PartialEq, Eq, Structural)]
pub enum CustomAction {
    Start,
    Stop,
    Pause,
    Resume,
    Slot1,
    Slot2,
    /// Start one particular project, whatever the slots hold.
    Project,
}

pub const ALL_CUSTOM_ACTIONS: [CustomAction; 7] = [
    CustomAction::Start,
    CustomAction::Stop,
    CustomAction::Pause,
    CustomAction::Resume,
    CustomAction::Slot1,
    CustomAction::Slot2,
    CustomAction::Project,
];

impl CustomAction {
    pub open spec fn spec_key(self) -> Seq<char> {
        match self {
            CustomAction::Start => "start"@,
            CustomAction::Stop => "stop"@,
            CustomAction::Pause => "pause"@,
            CustomAction::Resume => "resume"@,
            CustomAction::Slot1 => "slot_1"@,
            CustomAction::Slot2 => "slot_2"@,
            CustomAction::Project => "project"@,
        }
    }

    pub open spec fn label_key(self) -> Seq<char> {
        match self {
            CustomAction::Start => "action.start"@,
            CustomAction::Stop => "action.stop"@,
            CustomAction::Pause => "action.pause"@,
            CustomAction::Resume => "action.resume"@,
            CustomAction::Slot1 => "action.slot_1"@,
            CustomAction::Slot2 => "action.slot_2"@,
            CustomAction::Project => "action.project"@,
        }
    }

    pub fn key(&self) -> (r: &'static str)
        ensures
            r@ == self.spec_key(),
    {
        match self {
            CustomAction::Start => "start",
            CustomAction::Stop => "stop",
            CustomAction::Pause => "pause",
            CustomAction::Resume => "resume",
            CustomAction::Slot1 => "slot_1",
            CustomAction::Slot2 => "slot_2",
            CustomAction::Project => "project",
        }
    }

    pub fn label(&self, current_lang: &CurrentLang) -> (r: String)
        ensures
            r@ == translated(current_lang.lang, self.label_key()),
    {
        msg(
            current_lang,
            match self {
                CustomAction::Start => "action.start",
                CustomAction::Stop => "action.stop",
                CustomAction::Pause => "action.pause",
                CustomAction::Resume => "action.resume",
                CustomAction::Slot1 => "action.slot_1",
                CustomAction::Slot2 => "action.slot_2",
                CustomAction::Project => "action.project",
            },
        )
    }
}

/// The gesture whose name is `name`, if there is one.
pub open spec fn gesture_named(name: Seq<char>) -> Option<Gesture> {
    if name == "open_hand"@ {
        Some(Gesture::OpenHand)
    } else if name == "fist"@ {
        Some(Gesture::Fist)
    } else if name == "thumb_up"@ {
        Some(Gesture::ThumbUp)
    } else if name == "one_finger"@ {
        Some(Gesture::OneFinger)
    } else if name == "two_fingers"@ {
        Some(Gesture::TwoFingers)
    } else {
        None
    }
}

/// The action whose name is `name`, if there is one.
pub open spec fn action_named(name: Seq<char>) -> Option<CustomAction> {
    if name == "start"@ {
        Some(CustomAction::Start)
    } else if name == "stop"@ {
        Some(CustomAction::Stop)
    } else if name == "pause"@ {
        Some(CustomAction::Pause)
    } else if name == "resume"@ {
        Some(CustomAction::Resume)
    } else if name == "slot_1"@ {
        Some(CustomAction::Slot1)
    } else if name == "slot_2"@ {
        Some(CustomAction::Slot2)
    } else if name == "project"@ {
        Some(CustomAction::Project)
    } else {
        None
    }
}

/// Checks an incoming gesture name against the vocabulary.
pub fn parse_gesture(name: &str) -> (r: AppResult<Gesture>)
    ensures
        match r {
            Ok(g) => gesture_named(name@) == Some(g),
            Err(e) => gesture_named(name@) is None && e@ == ErrorView::Key(
                "gesture.unknown"@,
                seq![("name"@, name@)],
            ),
        },
{
    if str_eq(name, "open_hand") {
        Ok(Gesture::OpenHand)
    } else if str_eq(name, "fist") {
        Ok(Gesture::Fist)
    } else if str_eq(name, "thumb_up") {
        Ok(Gesture::ThumbUp)
    } else if str_eq(name, "one_finger") {
        Ok(Gesture::OneFinger)
    } else if str_eq(name, "two_fingers") {
        Ok(Gesture::TwoFingers)
    } else {
        Err(AppError::arg("gesture.unknown", "name", owned(name)))
    }
}

/// Checks an action name against the known actions.
pub fn parse_custom_action(name: &str) -> (r: AppResult<CustomAction>)
    ensures
        match r {
            Ok(a) => action_named(name@) == Some(a),
            Err(e) => action_named(name@) is None && e@ == ErrorView::Key(
                "gesture.action_unknown"@,
                seq![("name"@, name@)],
            ),
        },
{
    if str_eq(name, "start") {
        Ok(CustomAction::Start)
    } else if str_eq(name, "stop") {
        Ok(CustomAction::Stop)
    } else if str_eq(name, "pause") {
        Ok(CustomAction::Pause)
    } else if str_eq(name, "resume") {
        Ok(CustomAction::Resume)
    } else if str_eq(name, "slot_1") {
        Ok(CustomAction::Slot1)
    } else if str_eq(name, "slot_2") {
        Ok(CustomAction::Slot2)
    } else if str_eq(name, "project") {
        Ok(CustomAction::Project)
    } else {
        Err(AppError::arg("gesture.action_unknown", "name", owned(name)))
    }
}

/// Each gesture is read back from its own name.
pub proof fn law_gesture_key_round_trip(g: Gesture)
    ensures
        gesture_named(g.spec_key()) == Some(g),
{
    reveal_strlit("open_hand");
    reveal_strlit("fist");
    reveal_strlit("thumb_up");
    reveal_strlit("one_finger");
    reveal_strlit("two_fingers");
    assert("open_hand"@.len() == 9 && "fist"@.len() == 4 && "thumb_up"@.len() == 8 && "one_finger"@.len() == 10
        && "two_fingers"@.len() == 11);
    if g == Gesture::OneFinger {
        assert("one_finger"@[0] != "open_hand"@[0] || "one_finger"@.len() != "open_hand"@.len());
    }
}

/// Each action is read back from its own name.
pub proof fn law_action_key_round_trip(a: CustomAction)
    ensures
        action_named(a.spec_key()) == Some(a),
{
    reveal_strlit("start");
    reveal_strlit("stop");
    reveal_strlit("pause");
    reveal_strlit("resume");
    reveal_strlit("slot_1");
    reveal_strlit("slot_2");
    reveal_strlit("project");
    assert("start"@.len() == 5 && "stop"@.len() == 4 && "pause"@.len() == 5 && "resume"@.len() == 6
        && "slot_1"@.len() == 6 && "slot_2"@.len() == 6 && "project"@.len() == 7);
    assert("start"@[1] != "pause"@[1]);
    assert("resume"@[0] != "slot_1"@[0] && "resume"@[0] != "slot_2"@[0]);
    assert("slot_1"@[5] != "slot_2"@[5]);
}

/// Prefix of the sample key of a custom gesture.
pub const CUSTOM_PREFIX: &'static str = "custom:";

/// Key of a custom gesture in the recorded samples: `custom:<id>`.
pub open spec fn custom_key(id: i64) -> Seq<char> {
    CUSTOM_PREFIX@ + decimal(id as int)
}

/// The id in a custom gesture's sample key, `None` for a basic gesture.
pub open spec fn custom_key_id(key: Seq<char>) -> Option<i64> {
    if key.len() >= CUSTOM_PREFIX@.len() && key.take(CUSTOM_PREFIX@.len() as int) == CUSTOM_PREFIX@ {
        parsed_i64(key.skip(CUSTOM_PREFIX@.len() as int))
    } else {
        None
    }
}

/// The id of a custom gesture is read back from its sample key.
pub proof fn law_custom_key_round_trip(id: i64)
    ensures
        custom_key_id(custom_key(id)) == Some(id),
{
    crate::text::lemma_decimal_round_trip(id as int);
    let k = custom_key(id);
    assert(k.take(CUSTOM_PREFIX@.len() as int) =~= CUSTOM_PREFIX@);
    assert(k.skip(CUSTOM_PREFIX@.len() as int) =~= decimal(id as int));
}

/// Key of a custom gesture in `gesture_samples`.
pub fn custom_sample_key(id: i64) -> (r: String)
    ensures
        r@ == custom_key(id),
{
    let digits = int_text(id);
    concat(CUSTOM_PREFIX, digits.as_str())
}

/// Reads the id back from a sample key; `None` for a basic gesture.
pub fn parse_custom_sample_key(key: &str) -> (r: Option<i64>)
    ensures
        r == custom_key_id(key@),
{
    if !starts_with(key, CUSTOM_PREFIX) {
        return None;
    }
    let chars = chars_of(key);
    let n = CUSTOM_PREFIX.unicode_len();
    let mut rest: Vec<char> = Vec::new();
    let mut i: usize = n;
    while i < chars.len()
        invariant
            n <= i <= chars.len(),
            n == CUSTOM_PREFIX@.len(),
            rest@ == chars@.subrange(n as int, i as int),
        decreases chars.len() - i,
    {
        rest.push(chars[i]);
        i = i + 1;
        assert(rest@ =~= chars@.subrange(n as int, i as int));
    }
    assert(rest@ =~= key@.skip(n as int));
    let rest = string_of(&rest);
    parse_i64(rest.as_str())
}


// ---------- the running session ----------

/// `x`, or zero where `x` is negative.
pub open spec fn non_negative(x: int) -> int {
    if x < 0 {
        0
    } else {
        x
    }
}

/// Bound on the stored pause of a session under which its sums fit at any
/// moment.
pub const SANE_PAUSE_LIMIT: i64 = 9_000_000_000_000_000_000;

/// The session that is being tracked: the part of the state that is not in
/// the database.
#[derive(Debug, Clone, Copy, PartialEq, Eq, Structural)]
pub struct Session {
    pub entry_id: i64,
    pub project_id: i64,
    pub start: Moment,
    /// Pause time of this session that is already over.
    pub pause_seconds: i64,
    /// Start of the pause that is running, if the session is paused.
    pub paused_at: Option<Moment>,
}

impl Session {
    /// Its moments are valid.
    pub open spec fn wf(self) -> bool {
        &&& self.start.wf()
        &&& (self.paused_at matches Some(since) ==> since.wf())
    }

    /// Seconds of the pause that is running at `now`.
    pub open spec fn running_pause(self, now: Moment) -> int {
        match self.paused_at {
            Some(since) => non_negative(now.secs - since.secs),
            None => 0,
        }
    }

    /// All pause time up to `now`.
    pub open spec fn spec_total_pause(self, now: Moment) -> int {
        self.pause_seconds + self.running_pause(now)
    }

    /// Time since the start (never negative).
    pub open spec fn gross(self, now: Moment) -> int {
        non_negative(now.secs - self.start.secs)
    }

    /// Pure working time: gross time minus all pauses, never negative.
    pub open spec fn spec_worked(self, now: Moment) -> int {
        non_negative(self.gross(now) - self.spec_total_pause(now))
    }

    /// The sums at `now` fit the integer range.
    pub open spec fn fits(self, now: Moment) -> bool {
        &&& i64::MIN <= self.spec_total_pause(now) <= i64::MAX
        &&& self.gross(now) - self.spec_total_pause(now) <= i64::MAX
    }

    /// Valid moments and a pause far enough from the integer limits that the
    /// sums fit at every moment.
    pub open spec fn sane(self) -> bool {
        &&& self.wf()
        &&& -SANE_PAUSE_LIMIT <= self.pause_seconds <= SANE_PAUSE_LIMIT
    }

    pub proof fn lemma_sane_fits(self, now: Moment)
        requires
            self.sane(),
            now.wf(),
        ensures
            self.fits(now),
    {
    }

    pub fn is_sane(&self) -> (r: bool)
        requires
            self.wf(),
        ensures
            r == self.sane(),
    {
        -SANE_PAUSE_LIMIT <= self.pause_seconds && self.pause_seconds <= SANE_PAUSE_LIMIT
    }

    /// Do the sums at `now` fit the integer range?
    pub fn fits_at(&self, now: Moment) -> (r: bool)
        requires
            self.wf(),
            now.wf(),
        ensures
            r == self.fits(now),
    {
        let running: i128 = match self.paused_at {
            Some(since) => if now.secs >= since.secs {
                now.secs as i128 - since.secs as i128
            } else {
                0
            },
            None => 0,
        };
        let total = self.pause_seconds as i128 + running;
        let gross: i128 = if now.secs >= self.start.secs {
            now.secs as i128 - self.start.secs as i128
        } else {
            0
        };
        i64::MIN as i128 <= total && total <= i64::MAX as i128 && gross - total <= i64::MAX as i128
    }

    /// Pure working time: gross time minus all pauses, never negative.
    pub fn worked_seconds(&self, now: Moment) -> (r: i64)
        requires
            self.wf(),
            now.wf(),
            self.fits(now),
        ensures
            r == self.spec_worked(now),
    {
        let diff = now.secs - self.start.secs;
        let gross = if diff < 0 {
            0
        } else {
            diff
        };
        let net = gross - self.total_pause_seconds(now);
        if net < 0 {
            0
        } else {
            net
        }
    }

    /// All pause time up to `now`, a running pause included.
    pub fn total_pause_seconds(&self, now: Moment) -> (r: i64)
        requires
            self.wf(),
            now.wf(),
            self.fits(now),
        ensures
            r == self.spec_total_pause(now),
    {
        let running = match self.paused_at {
            Some(since) => {
                let d = now.secs - since.secs;
                if d < 0 {
                    0
                } else {
                    d
                }
            },
            None => 0,
        };
        self.pause_seconds + running
    }
}

/// The status a session (or its absence) shows.
pub open spec fn status_of(session: Option<Session>) -> TrackerStatus {
    match session {
        None => TrackerStatus::Idle,
        Some(s) => if s.paused_at is Some {
            TrackerStatus::Paused
        } else {
            TrackerStatus::Running
        },
    }
}

/// Holder of the running session.
pub struct Tracker {
    pub session: Option<Session>,
}

impl Default for Tracker {
    fn default() -> (r: Self)
        ensures
            r.session is None,
    {
        Tracker { session: None }
    }
}

impl Tracker {
    pub fn get(&self) -> (r: Option<Session>)
        ensures
            r == self.session,
    {
        self.session
    }

    pub fn set(&mut self, session: Option<Session>)
        ensures
            final(self).session == session,
    {
        self.session = session;
    }

    pub fn status(&self) -> (r: TrackerStatus)
        ensures
            r == status_of(self.session),
    {
        match self.session {
            None => TrackerStatus::Idle,
            Some(s) => if s.paused_at.is_some() {
                TrackerStatus::Paused
            } else {
                TrackerStatus::Running
            },
        }
    }
}

/// The state as frontend, tray and overlay show it.
#[derive(Debug)]
pub struct Snapshot {
    pub status: TrackerStatus,
    pub status_label: String,
    pub project_id: Option<i64>,
    pub project_name: Option<String>,
    pub project_color: Option<String>,
    pub active_slot: Option<u8>,
    /// Pure working time of the running session.
    pub elapsed_seconds: i64,
    pub pause_seconds: i64,
    /// Time already finished today (without the running session).
    pub today_seconds: i64,
    pub slots: Vec<SlotInfo>,
}

/// One gesture slot and the project on it.
#[derive(Debug)]
pub struct SlotInfo {
    pub slot: u8,
    pub project_id: Option<i64>,
    pub project_name: Option<String>,
    pub project_color: Option<String>,
}

// ---------- settings ----------

pub const KEY_HOTKEY: &'static str = "hotkey";
pub const KEY_CONFIDENCE: &'static str = "confidence_threshold";
pub const KEY_OVERLAY_TIMEOUT: &'static str = "overlay_timeout_ms";
pub const KEY_SOUND: &'static str = "sound_cue";
pub const KEY_SLOT_1: &'static str = "slot_1_project_id";
pub const KEY_SLOT_2: &'static str = "slot_2_project_id";
pub const KEY_ACTIVE_SLOT: &'static str = "active_slot";
/// Do the trained gestures count instead of the geometric rules?
pub const KEY_USE_TRAINING: &'static str = "use_training";
/// Language of the interface and the messages: "de" or "en".
pub const KEY_LANGUAGE: &'static str = "language";
/// Image source of the recognition: "builtin" (the webcam) or "network".
pub const KEY_CAMERA_SOURCE: &'static str = "camera_source";
pub const KEY_CAMERA_URL: &'static str = "camera_url";
/// Own time window for network cameras, which lag more than the webcam.
pub const KEY_OVERLAY_TIMEOUT_NETWORK: &'static str = "overlay_timeout_network_ms";

pub const DEFAULT_HOTKEY: &'static str = "CommandOrControl+Alt+Space";
/// The default confidence threshold as it is stored.
pub const DEFAULT_CONFIDENCE_TEXT: &'static str = "0.85";
pub const DEFAULT_OVERLAY_TIMEOUT_MS: i64 = 3000;
pub const DEFAULT_OVERLAY_TIMEOUT_NETWORK_MS: i64 = 4000;
pub const CAMERA_SOURCE_BUILTIN: &'static str = "builtin";
pub const CAMERA_SOURCE_NETWORK: &'static str = "network";

/// The settings a new installation starts with.
pub open spec fn default_settings() -> Seq<(Seq<char>, Seq<char>)> {
    seq![
        (KEY_HOTKEY@, DEFAULT_HOTKEY@),
        (KEY_CONFIDENCE@, DEFAULT_CONFIDENCE_TEXT@),
        (KEY_OVERLAY_TIMEOUT@, decimal(DEFAULT_OVERLAY_TIMEOUT_MS as int)),
        (KEY_OVERLAY_TIMEOUT_NETWORK@, decimal(DEFAULT_OVERLAY_TIMEOUT_NETWORK_MS as int)),
        (KEY_CAMERA_SOURCE@, CAMERA_SOURCE_BUILTIN@),
        (KEY_CAMERA_URL@, Seq::empty()),
        (KEY_SOUND@, "1"@),
        (KEY_ACTIVE_SLOT@, "1"@),
        (KEY_USE_TRAINING@, "0"@),
        (KEY_LANGUAGE@, "de"@),
    ]
}

/// The settings a new installation starts with.
pub fn settings_defaults() -> (r: Vec<(&'static str, String)>)
    ensures
        r@.map_values(|p: (&'static str, String)| (p.0@, p.1@)) == default_settings(),
{
    let r = vec![
        (KEY_HOTKEY, owned(DEFAULT_HOTKEY)),
        (KEY_CONFIDENCE, owned(DEFAULT_CONFIDENCE_TEXT)),
        (KEY_OVERLAY_TIMEOUT, int_text(DEFAULT_OVERLAY_TIMEOUT_MS)),
        (KEY_OVERLAY_TIMEOUT_NETWORK, int_text(DEFAULT_OVERLAY_TIMEOUT_NETWORK_MS)),
        (KEY_CAMERA_SOURCE, owned(CAMERA_SOURCE_BUILTIN)),
        (KEY_CAMERA_URL, String::new()),
        (KEY_SOUND, owned("1")),
        (KEY_ACTIVE_SLOT, owned("1")),
        (KEY_USE_TRAINING, owned("0")),
        (KEY_LANGUAGE, owned("de")),
    ];
    assert(r@.map_values(|p: (&'static str, String)| (p.0@, p.1@)) =~= default_settings());
    r
}

/// Version of the feature set the recognition sends. Samples of another
/// version are out of date and are no longer used.
pub const FEATURE_VERSION: i64 = 2;
/// Length of one feature vector.
pub const FEATURE_LEN: usize = 10;

// ---------- durations ----------

/// `hh:mm:ss` of a number of seconds; negative counts as zero.
pub open spec fn hms_text(seconds: int) -> Seq<char> {
    let s = non_negative(seconds);
    two_digits((s / 3600) as nat) + seq![':'] + two_digits(((s % 3600) / 60) as nat) + seq![':'] + two_digits(
        (s % 60) as nat,
    )
}

/// `hh:mm:ss` of a number of seconds; negative counts as zero.
pub fn format_hms(seconds: i64) -> (r: String)
    ensures
        r@ == hms_text(seconds as int),
{
    let s: u64 = if seconds < 0 {
        0
    } else {
        seconds as u64
    };
    let mut out: Vec<char> = Vec::new();
    push_two_digits(&mut out, s / 3600);
    out.push(':');
    push_two_digits(&mut out, (s % 3600) / 60);
    out.push(':');
    push_two_digits(&mut out, s % 60);
    assert(out@ =~= hms_text(seconds as int));
    string_of(&out)
}


// ---------- entries entered by hand ----------

/// A time entry entered or changed by hand.
#[derive(Debug)]
pub struct EntryInput {
    pub project_id: i64,
    /// Start, such as `2026-08-19T09:37` or `2026-08-19 09:37:00`.
    pub start: String,
    pub end: String,
    /// Pause in minutes, as the user enters it.
    pub pause_minutes: i64,
}

/// A checked entry, as it goes into the database.
#[derive(Debug, Clone, Copy, PartialEq, Eq, Structural)]
pub struct PlannedEntry {
    pub start: Moment,
    pub end: Moment,
    pub pause_seconds: i64,
    /// Net time: gross time minus the pause.
    pub duration_seconds: i64,
}

/// A form's time stamp as it is read: trimmed, with `T` standing for a space.
pub open spec fn normalized_input(raw: Seq<char>) -> Seq<char> {
    replaced(trimmed(raw), seq!['T'], seq![' '])
}

/// The local wall-clock time a form's time stamp names: with seconds, or
/// else without.
pub open spec fn input_local(raw: Seq<char>) -> Option<i64> {
    match naive_read(normalized_input(raw), TS_FORMAT@) {
        Some(t) => Some(t),
        None => naive_read(normalized_input(raw), MINUTE_FORMAT@),
    }
}

/// The error for a time stamp that is not read, or not unique locally.
pub open spec fn input_error(raw: Seq<char>) -> ErrorView {
    match input_local(raw) {
        None => ErrorView::Key("entry.bad_timestamp"@, seq![("value"@, raw)]),
        Some(_) => ErrorView::Key("entry.ambiguous_timestamp"@, seq![("value"@, raw)]),
    }
}

/// Reads a time stamp from the form: lenient about the format, strict about
/// the logic.
pub fn parse_input_ts(raw: &str) -> (r: AppResult<Moment>)
    ensures
        match r {
            Ok(m) => m.wf() && input_local(raw@) == Some(m.local),
            Err(e) => e@ == input_error(raw@),
        },
{
    let trimmed_raw = trim(raw);
    let chars = chars_of(trimmed_raw.as_str());
    let pattern = vec!['T'];
    let replacement = vec![' '];
    assert(pattern@ =~= seq!['T'] && replacement@ =~= seq![' ']);
    let normalized = string_of(&replace_chars(&chars, &pattern, &replacement));
    match read_local_moment(normalized.as_str(), TS_FORMAT, raw) {
        Ok(Some(m)) => return Ok(m),
        Err(e) => return Err(e),
        Ok(None) => {},
    }
    match read_local_moment(normalized.as_str(), MINUTE_FORMAT, raw) {
        Ok(Some(m)) => Ok(m),
        Err(e) => Err(e),
        Ok(None) => Err(AppError::arg("entry.bad_timestamp", "value", owned(raw))),
    }
}

/// What the checks make of an entry from `start` to `end` with the given
/// pause: its pause and net seconds, or the reason it is refused.
pub open spec fn plan_outcome(start: Moment, end: Moment, pause_minutes: i64) -> Result<(int, int), ErrorView> {
    let gross = end.secs - start.secs;
    if gross <= 0 {
        Err(keyed("entry.end_before_start"@))
    } else if pause_minutes < 0 {
        Err(keyed("entry.negative_pause"@))
    } else if pause_minutes * 60 >= gross {
        Err(keyed("entry.pause_too_long"@))
    } else {
        Ok((pause_minutes * 60, gross - pause_minutes * 60))
    }
}

/// Checks an entry between two moments and computes its net time.
pub fn plan_between(start: Moment, end: Moment, pause_minutes: i64) -> (r: AppResult<PlannedEntry>)
    requires
        start.wf(),
        end.wf(),
    ensures
        match r {
            Ok(p) => p.start == start && p.end == end && plan_outcome(start, end, pause_minutes) == Ok::<(int, int), ErrorView>(
                (p.pause_seconds as int, p.duration_seconds as int),
            ),
            Err(e) => plan_outcome(start, end, pause_minutes) == Err::<(int, int), ErrorView>(e@),
        },
{
    let gross = end.secs - start.secs;
    if gross <= 0 {
        return Err(AppError::key("entry.end_before_start"));
    }
    if pause_minutes < 0 {
        return Err(AppError::key("entry.negative_pause"));
    }
    if (pause_minutes as i128) * 60 >= gross as i128 {
        return Err(AppError::key("entry.pause_too_long"));
    }
    let pause_seconds = pause_minutes * 60;
    Ok(PlannedEntry { start, end, pause_seconds, duration_seconds: gross - pause_seconds })
}

/// `e` is what the checks refuse an entry with, for some pair of moments
/// that the form's start and end name: which moments they are depends on
/// the time zone.
pub open spec fn plan_refused(start: Seq<char>, end: Seq<char>, pause_minutes: i64, e: ErrorView) -> bool {
    exists|s: Moment, t: Moment|
        #![trigger plan_outcome(s, t, pause_minutes)]
        s.wf() && t.wf() && input_local(start) == Some(s.local) && input_local(end) == Some(t.local)
            && plan_outcome(s, t, pause_minutes) == Err::<(int, int), ErrorView>(e)
}

/// `p` is what the checks make of a form's start, end and pause.
pub open spec fn planned_from(start: Seq<char>, end: Seq<char>, pause_minutes: i64, p: PlannedEntry) -> bool {
    &&& p.start.wf() && p.end.wf()
    &&& input_local(start) == Some(p.start.local)
    &&& input_local(end) == Some(p.end.local)
    &&& plan_outcome(p.start, p.end, pause_minutes) == Ok::<(int, int), ErrorView>(
        (p.pause_seconds as int, p.duration_seconds as int),
    )
}

/// `e` is why the checks refuse a form's start, end and pause: the start is
/// not read, else the end is not read, else the moments read are refused.
pub open spec fn plan_failed(start: Seq<char>, end: Seq<char>, pause_minutes: i64, e: ErrorView) -> bool {
    ||| e == input_error(start)
    ||| input_local(start) is Some && e == input_error(end)
    ||| plan_refused(start, end, pause_minutes, e)
}

/// Checks an entry from the form and computes its net time.
pub fn plan_entry(input: &EntryInput) -> (r: AppResult<PlannedEntry>)
    ensures
        match r {
            Ok(p) => planned_from(input.start@, input.end@, input.pause_minutes, p),
            Err(e) => plan_failed(input.start@, input.end@, input.pause_minutes, e@),
        },
{
    let start = parse_input_ts(input.start.as_str())?;
    let end = parse_input_ts(input.end.as_str())?;
    plan_between(start, end, input.pause_minutes)
}

// ---------- network camera address ----------

/// Why a camera address is refused, if it is: only the scheme is checked,
/// not whether the address answers. An empty address means no network
/// camera.
pub open spec fn camera_url_problem(raw: Seq<char>) -> Option<ErrorView> {
    let url = trimmed(raw);
    if url.len() == 0 {
        None
    } else if !(url.len() >= 7 && url.take(7) == "http://"@) && !(url.len() >= 8 && url.take(8) == "https://"@) {
        Some(keyed("camera.url_scheme"@))
    } else if url.len() < 8 {
        Some(keyed("camera.url_incomplete"@))
    } else {
        None
    }
}

/// Checks the address of a network camera.
pub fn validate_camera_url(raw: &str) -> (r: AppResult<()>)
    ensures
        match r {
            Ok(()) => camera_url_problem(raw@) is None,
            Err(e) => camera_url_problem(raw@) == Some(e@),
        },
{
    let url = trim(raw);
    let n = url.as_str().unicode_len();
    if n == 0 {
        return Ok(());
    }
    proof {
        reveal_strlit("http://");
        reveal_strlit("https://");
    }
    if !(starts_with(url.as_str(), "http://") || starts_with(url.as_str(), "https://")) {
        return Err(AppError::key("camera.url_scheme"));
    }
    if n < 8 {
        return Err(AppError::key("camera.url_incomplete"));
    }
    Ok(())
}

// ---------- gesture slots ----------

/// The setting that holds the project of a slot.
pub open spec fn slot_setting(slot: u8) -> Option<Seq<char>> {
    if slot == 1 {
        Some(KEY_SLOT_1@)
    } else if slot == 2 {
        Some(KEY_SLOT_2@)
    } else {
        None
    }
}

/// The setting that holds the project of a slot.
pub fn slot_key(slot: u8) -> (r: AppResult<&'static str>)
    ensures
        match r {
            Ok(k) => slot_setting(slot) == Some(k@),
            Err(e) => slot_setting(slot) is None && e@ == keyed("slot.only_two"@),
        },
{
    if slot == 1 {
        Ok(KEY_SLOT_1)
    } else if slot == 2 {
        Ok(KEY_SLOT_2)
    } else {
        Err(AppError::key("slot.only_two"))
    }
}

/// The project id a slot names (a setting that reads as a number).
pub open spec fn slot_target(db: &Db, slot: u8) -> Option<i64> {
    match slot_setting(slot) {
        Some(key) => match db.setting_value(key) {
            Some(raw) => parsed_i64(raw),
            None => None,
        },
        None => None,
    }
}

/// The project on a slot, if it still exists.
pub open spec fn slot_project_of(db: &Db, slot: u8) -> Option<crate::db::ProjectView> {
    match slot_target(db, slot) {
        Some(id) => project_with(db.projects_v(), id),
        None => None,
    }
}

/// The project on a slot.
pub fn slot_project(db: &Db, slot: u8) -> (r: AppResult<Option<Project>>)
    requires
        db.wf(),
    ensures
        match r {
            Ok(p) => slot_setting(slot) is Some && view_opt_project(p) == slot_project_of(db, slot),
            Err(e) => slot_setting(slot) is None && e@ == keyed("slot.only_two"@),
        },
{
    let key = slot_key(slot)?;
    let raw = match db.setting(key) {
        Ok(Some(raw)) => raw,
        _ => return Ok(None),
    };
    let id = match parse_i64(raw.as_str()) {
        Some(id) => id,
        None => return Ok(None),
    };
    db.project(id)
}

/// The slot last chosen: it decides which project a start gesture tracks
/// while nothing runs. 1 unless the setting reads as 1 or 2.
pub open spec fn active_slot_of(db: &Db) -> u8 {
    match db.setting_value(KEY_ACTIVE_SLOT@) {
        Some(raw) => match parsed_u8(raw) {
            Some(s) => if s == 1 || s == 2 {
                s
            } else {
                1
            },
            None => 1,
        },
        None => 1,
    }
}

pub fn active_slot(db: &Db) -> (r: u8)
    requires
        db.wf(),
    ensures
        r == active_slot_of(db),
{
    match db.setting(KEY_ACTIVE_SLOT) {
        Ok(Some(raw)) => match parse_u8(raw.as_str()) {
            Some(s) => if s == 1 || s == 2 {
                s
            } else {
                1
            },
            None => 1,
        },
        _ => 1,
    }
}

/// The first slot whose project is the given one.
pub open spec fn slot_holding(db: &Db, project_id: i64) -> Option<u8> {
    if slot_project_of(db, 1) matches Some(p) && p.id == project_id {
        Some(1)
    } else if slot_project_of(db, 2) matches Some(p) && p.id == project_id {
        Some(2)
    } else {
        None
    }
}

pub fn slot_of_project(db: &Db, project_id: i64) -> (r: Option<u8>)
    requires
        db.wf(),
    ensures
        r == slot_holding(db, project_id),
{
    if let Ok(Some(project)) = slot_project(db, 1) {
        if project.id == project_id {
            return Some(1);
        }
    }
    if let Ok(Some(project)) = slot_project(db, 2) {
        if project.id == project_id {
            return Some(2);
        }
    }
    None
}

/// The stored hotkey; the default when none or only blanks are stored.
pub open spec fn hotkey_of(db: &Db) -> Seq<char> {
    match db.setting_value(KEY_HOTKEY@) {
        Some(raw) => if trimmed(raw).len() > 0 {
            raw
        } else {
            DEFAULT_HOTKEY@
        },
        None => DEFAULT_HOTKEY@,
    }
}

pub fn stored_hotkey(db: &Db) -> (r: String)
    requires
        db.wf(),
    ensures
        r@ == hotkey_of(db),
{
    match db.setting(KEY_HOTKEY) {
        Ok(Some(raw)) => {
            let t = trim(raw.as_str());
            if t.as_str().unicode_len() > 0 {
                raw
            } else {
                owned(DEFAULT_HOTKEY)
            }
        },
        _ => owned(DEFAULT_HOTKEY),
    }
}


// ---------- snapshot and restart ----------

/// A tracker whose session can be shown at `now`.
pub open spec fn tracker_ok(tracker: &Tracker, now: Moment) -> bool {
    tracker.session matches Some(s) ==> s.wf() && s.fits(now)
}

/// The project of the running session, if it still exists.
pub open spec fn session_project(db: &Db, session: Option<Session>) -> Option<ProjectView> {
    match session {
        Some(s) => project_with(db.projects_v(), s.project_id),
        None => None,
    }
}

pub open spec fn opt_id(p: Option<ProjectView>) -> Option<i64> {
    match p {
        Some(p) => Some(p.id),
        None => None,
    }
}

pub open spec fn opt_name(p: Option<ProjectView>) -> Option<Seq<char>> {
    match p {
        Some(p) => Some(p.name),
        None => None,
    }
}

pub open spec fn opt_color(p: Option<ProjectView>) -> Option<Seq<char>> {
    match p {
        Some(p) => Some(p.color),
        None => None,
    }
}

pub open spec fn opt_string(s: Option<String>) -> Option<Seq<char>> {
    match s {
        Some(t) => Some(t@),
        None => None,
    }
}

/// The slot a snapshot marks: that of the running project, else the one
/// last chosen.
pub open spec fn shown_slot(db: &Db, session: Option<Session>) -> u8 {
    match session_project(db, session) {
        Some(p) => match slot_holding(db, p.id) {
            Some(slot) => slot,
            None => active_slot_of(db),
        },
        None => active_slot_of(db),
    }
}

/// Does `info` show slot `slot` with its project?
pub open spec fn shows_slot(info: SlotInfo, db: &Db, slot: u8) -> bool {
    &&& info.slot == slot
    &&& info.project_id == opt_id(slot_project_of(db, slot))
    &&& opt_string(info.project_name) == opt_name(slot_project_of(db, slot))
    &&& opt_string(info.project_color) == opt_color(slot_project_of(db, slot))
}

/// The calendar day of `now`, as the totals are asked for it.
pub open spec fn today_of(now: Moment) -> Seq<char> {
    naive_text(now.local, DAY_FORMAT@)
}

/// `snap` shows the state at `now`.
pub open spec fn shows_state(snap: &Snapshot, db: &Db, tracker: &Tracker, lang: crate::i18n::Lang, now: Moment) -> bool {
    let session = tracker.session;
    let project = session_project(db, session);
    &&& snap.status == status_of(session)
    &&& snap.status_label@ == translated(lang, status_of(session).label_key())
    &&& snap.project_id == opt_id(project)
    &&& opt_string(snap.project_name) == opt_name(project)
    &&& opt_string(snap.project_color) == opt_color(project)
    &&& snap.active_slot == Some(shown_slot(db, session))
    &&& snap.elapsed_seconds == (match session {
        Some(s) => s.spec_worked(now),
        None => 0,
    })
    &&& snap.pause_seconds == (match session {
        Some(s) => s.spec_total_pause(now),
        None => 0,
    })
    &&& snap.today_seconds == day_sum_all(db.entries_v(), today_of(now))
    &&& snap.slots@.len() == 2
    &&& shows_slot(snap.slots@[0], db, 1)
    &&& shows_slot(snap.slots@[1], db, 2)
}

fn slot_info(db: &Db, slot: u8) -> (r: SlotInfo)
    requires
        db.wf(),
        slot == 1 || slot == 2,
    ensures
        shows_slot(r, db, slot),
{
    let project = match slot_project(db, slot) {
        Ok(p) => p,
        Err(_) => None,
    };
    match project {
        Some(p) => SlotInfo { slot, project_id: Some(p.id), project_name: Some(p.name), project_color: Some(p.color) },
        None => SlotInfo { slot, project_id: None, project_name: None, project_color: None },
    }
}

/// The snapshot at a given moment.
pub fn snapshot_at(db: &Db, tracker: &Tracker, current_lang: &CurrentLang, now: Moment) -> (r: AppResult<Snapshot>)
    requires
        db.wf(),
        now.wf(),
        tracker_ok(tracker, now),
    ensures
        match r {
            Ok(snap) => fits_i64(day_sum_all(db.entries_v(), today_of(now))) && shows_state(
                &snap,
                db,
                tracker,
                current_lang.lang,
                now,
            ),
            Err(e) => !fits_i64(day_sum_all(db.entries_v(), today_of(now))) && e@ == overflow_error(),
        },
{
    let today = day_of(&now);
    let session = tracker.get();
    let (project, elapsed, pause) = match session {
        Some(s) => {
            let p = match db.project(s.project_id) {
                Ok(p) => p,
                Err(_) => None,
            };
            (p, s.worked_seconds(now), s.total_pause_seconds(now))
        },
        None => (None, 0, 0),
    };
    let mut slots: Vec<SlotInfo> = Vec::new();
    slots.push(slot_info(db, 1));
    slots.push(slot_info(db, 2));
    let status = tracker.status();
    let today_seconds = db.day_total(today.as_str())?;
    let (project_id, project_name, project_color, marked) = match project {
        Some(p) => {
            let slot = match slot_of_project(db, p.id) {
                Some(slot) => slot,
                None => active_slot(db),
            };
            (Some(p.id), Some(p.name), Some(p.color), slot)
        },
        None => (None, None, None, active_slot(db)),
    };
    Ok(
        Snapshot {
            status,
            status_label: status.label(current_lang),
            project_id,
            project_name,
            project_color,
            active_slot: Some(marked),
            elapsed_seconds: elapsed,
            pause_seconds: pause,
            today_seconds,
            slots,
        },
    )
}

/// The snapshot now: built from the database and the running session.
pub fn snapshot(db: &Db, tracker: &Tracker, current_lang: &CurrentLang) -> (r: AppResult<Snapshot>)
    requires
        db.wf(),
        tracker.session matches Some(s) ==> s.sane(),
    ensures
        exists|now: Moment|
            #[trigger] now.wf() && match r {
                Ok(snap) => fits_i64(day_sum_all(db.entries_v(), today_of(now))) && shows_state(
                    &snap,
                    db,
                    tracker,
                    current_lang.lang,
                    now,
                ),
                Err(e) => !fits_i64(day_sum_all(db.entries_v(), today_of(now))) && e@ == overflow_error(),
            },
{
    let now = now();
    proof {
        if let Some(s) = tracker.session {
            s.lemma_sane_fits(now);
        }
    }
    snapshot_at(db, tracker, current_lang, now)
}

/// What a restart leaves behind at `now`, given the database and session
/// before and after it and its result.
pub open spec fn recovers(
    before: Db,
    after: Db,
    session_before: Option<Session>,
    session_after: Option<Session>,
    r: Result<(), ErrorView>,
    now: Moment,
) -> bool {
    match last_open(before.entries_v()) {
        None => r is Ok && after == before && session_after == session_before,
        Some(i) => {
            let e = before.entries_v()[i];
            match r {
                Ok(()) => match naive_read(e.start_ts, TS_FORMAT@) {
                    Some(local) => exists|start: Moment|
                        {
                            &&& #[trigger] start.wf()
                            &&& start.local == local
                            &&& if now.secs - start.secs <= RESUME_LIMIT_SECONDS {
                                &&& after == before
                                &&& session_after == Some(
                                    Session {
                                        entry_id: e.id,
                                        project_id: e.project_id->0,
                                        start,
                                        pause_seconds: e.pause,
                                        paused_at: Some(now),
                                    },
                                )
                            } else {
                                &&& session_after == session_before
                                &&& after.entries_v() == entries_where(
                                    before.entries_v(),
                                    e.id,
                                    |x: EntryView| entry_closed(x, naive_text(start.local, TS_FORMAT@), e.pause, 0),
                                )
                                &&& same_except_entries(&before, &after)
                                &&& after.next_ids() == before.next_ids()
                            }
                        },
                    None => false,
                },
                Err(err) => {
                    &&& after == before
                    &&& session_after == session_before
                    &&& match naive_read(e.start_ts, TS_FORMAT@) {
                        None => err == ErrorView::Key("db.bad_timestamp"@, seq![("value"@, e.start_ts)]),
                        Some(_) => err == ErrorView::Key("entry.ambiguous_timestamp"@, seq![("value"@, e.start_ts)]),
                    }
                },
            }
        },
    }
}

pub open spec fn unit_result(r: AppResult<()>) -> Result<(), ErrorView> {
    match r {
        Ok(()) => Ok(()),
        Err(e) => Err(e@),
    }
}

/// After a restart, resumes a session that is still open, as long as it is
/// young enough (paused, so that the time away does not count). Older ones
/// are closed at their start, so that no unrealistic entries arise.
pub fn recover_session_at(db: &mut Db, tracker: &mut Tracker, now: Moment) -> (r: AppResult<()>)
    requires
        old(db).wf(),
        now.wf(),
    ensures
        final(db).wf(),
        recovers(*old(db), *final(db), old(tracker).session, final(tracker).session, unit_result(r), now),
{
    let found = db.dangling_entry()?;
    match found {
        None => Ok(()),
        Some((entry_id, project_id, start, pause_seconds)) => {
            let age = now.secs - start.secs;
            if age <= RESUME_LIMIT_SECONDS {
                tracker.set(Some(Session { entry_id, project_id, start, pause_seconds, paused_at: Some(now) }));
            } else {
                db.close_entry(entry_id, &start, pause_seconds, 0)?;
            }
            assert(start.wf());
            Ok(())
        },
    }
}

/// After a restart: resumes or closes a session left open.
pub fn recover_session(db: &mut Db, tracker: &mut Tracker) -> (r: AppResult<()>)
    requires
        old(db).wf(),
    ensures
        final(db).wf(),
        exists|now: Moment|
            #[trigger] now.wf() && recovers(
                *old(db),
                *final(db),
                old(tracker).session,
                final(tracker).session,
                unit_result(r),
                now,
            ),
{
    let now = now();
    recover_session_at(db, tracker, now)
}


// ---------- laws ----------

/// Working time is gross time minus all pauses, and never negative: a
/// session with more pause than time writes no negative duration.
pub proof fn law_worked_time(s: Session, now: Moment)
    ensures
        s.spec_worked(now) >= 0,
        s.gross(now) >= s.spec_total_pause(now) ==> s.spec_worked(now) == s.gross(now) - s.spec_total_pause(now),
        s.gross(now) < s.spec_total_pause(now) ==> s.spec_worked(now) == 0,
        s.spec_total_pause(now) >= s.pause_seconds,
{
}

/// A checked entry has a positive net time, a pause that is not negative,
/// and the two add up to the time between start and end.
pub proof fn law_planned_entry(start: Moment, end: Moment, pause_minutes: i64, pause: int, net: int)
    requires
        plan_outcome(start, end, pause_minutes) == Ok::<(int, int), ErrorView>((pause, net)),
    ensures
        net > 0,
        pause >= 0,
        pause + net == end.secs - start.secs,
        pause == pause_minutes * 60,
{
}

/// An entry is refused, in this order, when it does not end after it
/// starts, when its pause is negative, and when its pause is at least as
/// long as the whole time; every other entry is accepted.
pub proof fn law_plan_refusals(start: Moment, end: Moment, pause_minutes: i64)
    ensures
        end.secs <= start.secs ==> plan_outcome(start, end, pause_minutes) == Err::<(int, int), ErrorView>(
            keyed("entry.end_before_start"@),
        ),
        end.secs > start.secs && pause_minutes < 0 ==> plan_outcome(start, end, pause_minutes) == Err::<
            (int, int),
            ErrorView,
        >(keyed("entry.negative_pause"@)),
        end.secs > start.secs && pause_minutes >= 0 && pause_minutes * 60 >= end.secs - start.secs ==> plan_outcome(
            start,
            end,
            pause_minutes,
        ) == Err::<(int, int), ErrorView>(keyed("entry.pause_too_long"@)),
        end.secs > start.secs && pause_minutes >= 0 && pause_minutes * 60 < end.secs - start.secs ==> plan_outcome(
            start,
            end,
            pause_minutes,
        ) is Ok,
{
}

} // verus!
