//! What the application does on a gesture, a tray click or a click in the
//! main window: one state machine over the database and the running
//! session, so that there is exactly one truth about running, paused and
//! stopped.
//!
//! Every operation that reads the clock has a twin ending in `_at` that
//! takes the moment as an argument and states exactly what it does.

use vstd::prelude::*;

pub mod records;
pub mod settings;
pub mod training;

use crate::clock::{naive_text, now, Moment, TS_FORMAT};
use crate::db::{
    entries_where, entry_closed, entry_paused, full_error, project_with, same_except_entries,
    same_except_settings, Db,
    EntryView, ProjectView,
};
use crate::db::totals::{day_sum_all, fits_i64};
use crate::db::{gesture_with, overflow_error};
use crate::error::{error_text, keyed, AppError, AppResult, ErrorView};
use crate::i18n::{filled, msg, msg_args, translated, CurrentLang, Lang};
use crate::state::{
    active_slot, active_slot_of, format_hms, hms_text, slot_holding, slot_of_project, slot_project,
    slot_project_of, slot_setting, snapshot_at, shows_state, status_of, today_of, action_named, parse_custom_action,
    CustomAction, Gesture, Session, Snapshot, Tracker, TrackerStatus, KEY_ACTIVE_SLOT,
};
use crate::text::{digits, nat_text, owned};

verus! {

/// The whole state of the application: database, running session and the
/// language of the messages.
pub struct AppState {
    pub db: Db,
    pub tracker: Tracker,
    pub current_lang: CurrentLang,
}

/// The session's entry is in the database, open and booked on the session's
/// project.
pub open spec fn entry_open_for(entries: Seq<EntryView>, s: Session) -> bool {
    exists|k: int|
        0 <= k < entries.len() && #[trigger] entries[k].id == s.entry_id && entries[k].end_ts is None
            && entries[k].project_id == Some(s.project_id)
}

impl AppState {
    /// The database is well formed, and a running session has its open entry
    /// in it.
    pub open spec fn wf(&self) -> bool {
        &&& self.db.wf()
        &&& self.tracker.session matches Some(s) ==> s.wf() && entry_open_for(self.db.entries_v(), s)
    }

    /// The session, if there is one, can be computed with at `now`.
    pub open spec fn fits(&self, now: Moment) -> bool {
        self.tracker.session matches Some(s) ==> s.fits(now)
    }

    /// The session, if there is one, can be computed with at any moment.
    pub open spec fn sane(&self) -> bool {
        self.tracker.session matches Some(s) ==> s.sane()
    }

    pub open spec fn lang(&self) -> Lang {
        self.current_lang.lang
    }
}

/// A new state: empty database, nothing running, German messages.
pub fn new_state(db: Db) -> (r: AppState)
    requires
        db.wf(),
    ensures
        r.wf(),
        r.db == db,
        r.tracker.session is None,
        r.lang() == Lang::De,
{
    AppState { db, tracker: Tracker { session: None }, current_lang: CurrentLang { lang: Lang::De } }
}

proof fn lemma_open_kept_where(entries: Seq<EntryView>, id: i64, f: spec_fn(EntryView) -> EntryView, s: Session)
    requires
        entry_open_for(entries, s),
        forall|e: EntryView| #[trigger] f(e).id == e.id,
        s.entry_id == id ==> forall|e: EntryView|
            #[trigger] f(e).end_ts == e.end_ts && f(e).project_id == e.project_id,
    ensures
        entry_open_for(entries_where(entries, id, f), s),
{
    let k = choose|k: int|
        0 <= k < entries.len() && #[trigger] entries[k].id == s.entry_id && entries[k].end_ts is None
            && entries[k].project_id == Some(s.project_id);
    let after = entries_where(entries, id, f);
    assert(after[k].id == s.entry_id);
}

proof fn lemma_open_kept_push(entries: Seq<EntryView>, x: EntryView, s: Session)
    requires
        entry_open_for(entries, s),
    ensures
        entry_open_for(entries.push(x), s),
{
    let k = choose|k: int|
        0 <= k < entries.len() && #[trigger] entries[k].id == s.entry_id && entries[k].end_ts is None
            && entries[k].project_id == Some(s.project_id);
    assert(entries.push(x)[k] == entries[k]);
}

/// An operation's text result as plain values.
pub open spec fn text_result(r: AppResult<String>) -> Result<Seq<char>, ErrorView> {
    match r {
        Ok(t) => Ok(t@),
        Err(e) => Err(e@),
    }
}

/// Nothing changed.
pub open spec fn unchanged(before: &AppState, after: &AppState) -> bool {
    &&& after.db == before.db
    &&& after.tracker.session == before.tracker.session
    &&& after.current_lang == before.current_lang
}

/// Refused with the given error, nothing changed.
pub open spec fn refused(before: &AppState, after: &AppState, r: Result<Seq<char>, ErrorView>, e: ErrorView) -> bool {
    r == Err::<Seq<char>, ErrorView>(e) && unchanged(before, after)
}

/// How the entry of `s` is closed at `now`: end time, the pauses and the
/// working time so far.
pub open spec fn closed_at(s: Session, now: Moment) -> spec_fn(EntryView) -> EntryView {
    |e: EntryView|
        entry_closed(e, naive_text(now.local, TS_FORMAT@), s.spec_total_pause(now) as i64, s.spec_worked(now) as i64)
}

/// The entries once the running session, if any, is stopped at `now`.
pub open spec fn entries_after_stop(st: &AppState, now: Moment) -> Seq<EntryView> {
    match st.tracker.session {
        Some(s) => entries_where(st.db.entries_v(), s.entry_id, closed_at(s, now)),
        None => st.db.entries_v(),
    }
}

/// Only the entries changed (and the session below it), no id was handed out.
pub open spec fn only_entries_changed(before: &AppState, after: &AppState) -> bool {
    &&& same_except_entries(&before.db, &after.db)
    &&& after.db.next_ids() == before.db.next_ids()
    &&& after.current_lang == before.current_lang
}

/// Name of a project for messages; a stand-in if it is gone.
pub open spec fn name_or_fallback(projects: Seq<ProjectView>, id: i64, lang: Lang) -> Seq<char> {
    match project_with(projects, id) {
        Some(p) => p.name,
        None => translated(lang, "track.project_fallback"@),
    }
}

/// Stopping at `now`: the session's entry is closed with its working time
/// and pauses, nothing runs any more.
pub open spec fn stops(before: &AppState, after: &AppState, r: Result<Seq<char>, ErrorView>, now: Moment) -> bool {
    match before.tracker.session {
        None => refused(before, after, r, keyed("track.not_running"@)),
        Some(s) => {
            &&& after.db.entries_v() == entries_after_stop(before, now)
            &&& only_entries_changed(before, after)
            &&& after.tracker.session is None
            &&& r == Ok::<Seq<char>, ErrorView>(
                filled(
                    translated(before.lang(), "track.stop"@),
                    seq![
                        ("name"@, name_or_fallback(before.db.projects_v(), s.project_id, before.lang())),
                        ("time"@, hms_text(s.spec_worked(now))),
                    ],
                ),
            )
        },
    }
}

/// Pausing at `now`: only the session changes.
pub open spec fn pauses(before: &AppState, after: &AppState, r: Result<Seq<char>, ErrorView>, now: Moment) -> bool {
    match before.tracker.session {
        None => refused(before, after, r, keyed("track.not_running"@)),
        Some(s) => if s.paused_at is Some {
            refused(before, after, r, keyed("track.already_paused"@))
        } else {
            &&& after.db == before.db
            &&& after.current_lang == before.current_lang
            &&& after.tracker.session == Some(Session { paused_at: Some(now), ..s })
            &&& r == Ok::<Seq<char>, ErrorView>(translated(before.lang(), "track.pause"@))
        },
    }
}

/// Resuming at `now`: the running pause is added to the session's pauses,
/// which are written to its entry.
pub open spec fn resumes(before: &AppState, after: &AppState, r: Result<Seq<char>, ErrorView>, now: Moment) -> bool {
    match before.tracker.session {
        None => refused(before, after, r, keyed("track.not_running"@)),
        Some(s) => if s.paused_at is None {
            refused(before, after, r, keyed("track.already_running"@))
        } else {
            &&& after.tracker.session == Some(
                Session { pause_seconds: s.spec_total_pause(now) as i64, paused_at: None, ..s },
            )
            &&& after.db.entries_v() == entries_where(
                before.db.entries_v(),
                s.entry_id,
                |e: EntryView| entry_paused(e, s.spec_total_pause(now) as i64),
            )
            &&& only_entries_changed(before, after)
            &&& r == Ok::<Seq<char>, ErrorView>(translated(before.lang(), "track.resume"@))
        },
    }
}

/// The open entry that starting a project at `now` adds.
pub open spec fn opened_entry(id: i64, project_id: i64, now: Moment, by_gesture: bool) -> EntryView {
    EntryView {
        id,
        project_id: Some(project_id),
        start_ts: naive_text(now.local, TS_FORMAT@),
        end_ts: None,
        pause: 0,
        duration: None,
        by_gesture,
    }
}

/// The slot of a project, if it is on one, becomes the active slot; no
/// other setting changes.
pub open spec fn marks_slot(before: &Db, after: &Db, project_id: i64) -> bool {
    match slot_holding(before, project_id) {
        Some(slot) => forall|k: Seq<char>|
            #[trigger] after.setting_value(k) == if k == KEY_ACTIVE_SLOT@ {
                Some(digits(slot as nat))
            } else {
                before.setting_value(k)
            },
        None => after.settings_v() == before.settings_v(),
    }
}

/// Starting a project at `now`: a running session is stopped first, a new
/// open entry is added and becomes the session, and the project's slot, if
/// it has one, becomes the active slot.
pub open spec fn starts(
    before: &AppState,
    after: &AppState,
    r: Result<Seq<char>, ErrorView>,
    project_id: i64,
    by_gesture: bool,
    now: Moment,
) -> bool {
    match project_with(before.db.projects_v(), project_id) {
        None => refused(before, after, r, keyed("project.gone"@)),
        Some(p) => if before.tracker.session matches Some(s) && s.project_id == project_id {
            refused(before, after, r, ErrorView::Key("track.project_running"@, seq![("name"@, p.name)]))
        } else if before.db.next_ids().1 == i64::MAX {
            &&& r == Err::<Seq<char>, ErrorView>(full_error())
            &&& after.db.entries_v() == entries_after_stop(before, now)
            &&& only_entries_changed(before, after)
            &&& after.tracker.session is None
        } else {
            let id = before.db.next_ids().1;
            &&& after.db.entries_v() == entries_after_stop(before, now).push(opened_entry(id, project_id, now, by_gesture))
            &&& after.tracker.session == Some(
                Session { entry_id: id, project_id, start: now, pause_seconds: 0, paused_at: None },
            )
            &&& after.db.projects_v() == before.db.projects_v()
            &&& after.db.gestures_v() == before.db.gestures_v()
            &&& after.db.samples_v() == before.db.samples_v()
            &&& after.db.next_ids() == (before.db.next_ids().0, (id + 1) as i64, before.db.next_ids().2, before.db.next_ids().3)
            &&& marks_slot(&before.db, &after.db, project_id)
            &&& after.current_lang == before.current_lang
            &&& r == Ok::<Seq<char>, ErrorView>(
                filled(translated(before.lang(), "track.start"@), seq![("name"@, p.name)]),
            )
        },
    }
}

impl AppState {
    fn project_name_or_fallback(&self, id: i64) -> (r: String)
        requires
            self.db.wf(),
        ensures
            r@ == name_or_fallback(self.db.projects_v(), id, self.lang()),
    {
        match self.db.project(id) {
            Ok(Some(p)) => p.name,
            _ => msg(&self.current_lang, "track.project_fallback"),
        }
    }

    /// Stops the running session at `now`.
    pub fn stop_session_at(&mut self, now: Moment) -> (r: AppResult<String>)
        requires
            old(self).wf(),
            now.wf(),
            old(self).fits(now),
        ensures
            final(self).wf(),
            final(self).fits(now),
            stops(old(self), final(self), text_result(r), now),
    {
        let session = match self.tracker.get() {
            Some(s) => s,
            None => return Err(AppError::key("track.not_running")),
        };
        let worked = session.worked_seconds(now);
        let pause = session.total_pause_seconds(now);
        let _ = self.db.close_entry(session.entry_id, &now, pause, worked);
        self.tracker.set(None);
        let name = self.project_name_or_fallback(session.project_id);
        let args = vec![(owned("name"), name), (owned("time"), format_hms(worked))];
        assert(args.deep_view() =~= seq![(args@[0].0@, args@[0].1@), (args@[1].0@, args@[1].1@)]);
        Ok(msg_args(&self.current_lang, "track.stop", &args))
    }

    /// Pauses the running session at `now`.
    pub fn pause_session_at(&mut self, now: Moment) -> (r: AppResult<String>)
        requires
            old(self).wf(),
            now.wf(),
            old(self).fits(now),
        ensures
            final(self).wf(),
            final(self).fits(now),
            pauses(old(self), final(self), text_result(r), now),
    {
        let mut session = match self.tracker.get() {
            Some(s) => s,
            None => return Err(AppError::key("track.not_running")),
        };
        if session.paused_at.is_some() {
            return Err(AppError::key("track.already_paused"));
        }
        session.paused_at = Some(now);
        self.tracker.set(Some(session));
        Ok(msg(&self.current_lang, "track.pause"))
    }

    /// Ends the pause of the session at `now`; the pause is written to the
    /// entry at once, so that it survives a crash.
    pub fn resume_session_at(&mut self, now: Moment) -> (r: AppResult<String>)
        requires
            old(self).wf(),
            now.wf(),
            old(self).fits(now),
        ensures
            final(self).wf(),
            final(self).fits(now),
            resumes(old(self), final(self), text_result(r), now),
    {
        let mut session = match self.tracker.get() {
            Some(s) => s,
            None => return Err(AppError::key("track.not_running")),
        };
        if session.paused_at.is_none() {
            return Err(AppError::key("track.already_running"));
        }
        let total = session.total_pause_seconds(now);
        session.pause_seconds = total;
        session.paused_at = None;
        self.tracker.set(Some(session));
        let ghost before = self.db.entries_v();
        let _ = self.db.set_entry_pause(session.entry_id, total);
        proof {
            lemma_open_kept_where(before, session.entry_id, |e: EntryView| entry_paused(e, total), session);
        }
        Ok(msg(&self.current_lang, "track.resume"))
    }

    /// Starts tracking a project at `now`; a different running project is
    /// stopped first.
    pub fn start_session_at(&mut self, project_id: i64, by_gesture: bool, now: Moment) -> (r: AppResult<String>)
        requires
            old(self).wf(),
            now.wf(),
            old(self).fits(now),
        ensures
            final(self).wf(),
            final(self).fits(now),
            starts(old(self), final(self), text_result(r), project_id, by_gesture, now),
    {
        let project = match self.db.project(project_id) {
            Ok(Some(p)) => p,
            _ => return Err(AppError::key("project.gone")),
        };
        let ghost p = project@;
        if let Some(current) = self.tracker.get() {
            if current.project_id == project_id {
                return Err(AppError::arg("track.project_running", "name", project.name));
            }
            let _ = self.stop_session_at(now);
        }
        let ghost mid = self.db.entries_v();
        let entry_id = self.db.open_entry(project_id, &now, by_gesture)?;
        let session = Session { entry_id, project_id, start: now, pause_seconds: 0, paused_at: None };
        self.tracker.set(Some(session));
        proof {
            let pushed = self.db.entries_v();
            assert(pushed[pushed.len() - 1].id == entry_id);
        }
        if let Some(slot) = slot_of_project(&self.db, project_id) {
            let _ = self.db.set_setting(KEY_ACTIVE_SLOT, nat_text(slot as u64).as_str());
        }
        let args = vec![(owned("name"), project.name)];
        assert(args.deep_view() =~= seq![("name"@, p.name)]);
        Ok(msg_args(&self.current_lang, "track.start", &args))
    }
}


/// The active slot became `slot`; nothing else changed.
pub open spec fn slot_chosen(before: &AppState, mid: &AppState, slot: u8) -> bool {
    &&& mid.wf()
    &&& same_except_settings(&before.db, &mid.db)
    &&& forall|k: Seq<char>|
        #[trigger] mid.db.setting_value(k) == if k == KEY_ACTIVE_SLOT@ {
            Some(digits(slot as nat))
        } else {
            before.db.setting_value(k)
        }
    &&& mid.tracker.session == before.tracker.session
    &&& mid.current_lang == before.current_lang
}

/// A message naming a slot and its project.
pub open spec fn slot_text(lang: Lang, key: Seq<char>, slot: u8, name: Seq<char>) -> Seq<char> {
    filled(translated(lang, key), seq![("slot"@, digits(slot as nat)), ("name"@, name)])
}

/// `text` if the step succeeded, else its error.
pub open spec fn then_text(step: Result<Seq<char>, ErrorView>, text: Seq<char>) -> Result<Seq<char>, ErrorView> {
    match step {
        Ok(_) => Ok(text),
        Err(e) => Err(e),
    }
}

/// Choosing a slot tracks its project, from any state: idle starts it,
/// paused on it resumes, running on it changes nothing, on another project
/// switches.
pub open spec fn selects(
    before: &AppState,
    after: &AppState,
    r: Result<Seq<char>, ErrorView>,
    slot: u8,
    by_gesture: bool,
    now: Moment,
) -> bool {
    match slot_setting(slot) {
        None => refused(before, after, r, keyed("slot.only_two"@)),
        Some(_) => match slot_project_of(&before.db, slot) {
            None => refused(before, after, r, ErrorView::Key("slot.unassigned"@, seq![("slot"@, digits(slot as nat))])),
            Some(p) => exists|mid: AppState|
                #[trigger] slot_chosen(before, &mid, slot) && {
                    let lang = before.lang();
                    if before.tracker.session is Some && before.tracker.session->0.project_id == p.id {
                        if before.tracker.session->0.paused_at is Some {
                            exists|step: Result<Seq<char>, ErrorView>|
                                #[trigger] resumes(&mid, after, step, now) && r == then_text(
                                    step,
                                    slot_text(lang, "slot.resumed"@, slot, p.name),
                                )
                        } else {
                            unchanged(&mid, after) && r == Ok::<Seq<char>, ErrorView>(
                                slot_text(lang, "slot.already_running"@, slot, p.name),
                            )
                        }
                    } else {
                        let key = if before.tracker.session is None {
                            "slot.start"@
                        } else if before.tracker.session->0.paused_at is Some {
                            "slot.switched_from_pause"@
                        } else {
                            "slot.switched"@
                        };
                        exists|step: Result<Seq<char>, ErrorView>|
                            #[trigger] starts(&mid, after, step, p.id, by_gesture, now) && r == then_text(
                                step,
                                slot_text(lang, key, slot, p.name),
                            )
                    }
                },
        },
    }
}

/// The project a start without a named project tracks: that of the active
/// slot, else of slot 1, else of slot 2.
pub open spec fn start_project(db: &Db) -> Option<ProjectView> {
    match slot_project_of(db, active_slot_of(db)) {
        Some(p) => Some(p),
        None => match slot_project_of(db, 1) {
            Some(p) => Some(p),
            None => slot_project_of(db, 2),
        },
    }
}

/// "Start" without a named project: resumes a pause, else starts the
/// project of the active slot.
pub open spec fn starts_from_slot(before: &AppState, after: &AppState, r: Result<Seq<char>, ErrorView>, now: Moment) -> bool {
    match status_of(before.tracker.session) {
        TrackerStatus::Paused => resumes(before, after, r, now),
        TrackerStatus::Running => refused(before, after, r, keyed("track.already_running"@)),
        TrackerStatus::Idle => match start_project(&before.db) {
            Some(p) => starts(before, after, r, p.id, true, now),
            None => refused(before, after, r, keyed("slot.no_project"@)),
        },
    }
}

/// A message naming a slot and its project.
pub fn slot_message(current_lang: &CurrentLang, key: &str, slot: u8, name: &str) -> (r: String)
    ensures
        r@ == slot_text(current_lang.lang, key@, slot, name@),
{
    let args = vec![(owned("slot"), nat_text(slot as u64)), (owned("name"), owned(name))];
    assert(args.deep_view() =~= seq![("slot"@, digits(slot as nat)), ("name"@, name@)]);
    msg_args(current_lang, key, &args)
}

impl AppState {
    /// Chooses a slot: its project is tracked, not just marked.
    pub fn select_slot_at(&mut self, slot: u8, by_gesture: bool, now: Moment) -> (r: AppResult<String>)
        requires
            old(self).wf(),
            now.wf(),
            old(self).fits(now),
        ensures
            final(self).wf(),
            final(self).fits(now),
            selects(old(self), final(self), text_result(r), slot, by_gesture, now),
    {
        let project = match slot_project(&self.db, slot) {
            Ok(Some(p)) => p,
            Ok(None) => return Err(AppError::arg("slot.unassigned", "slot", nat_text(slot as u64))),
            Err(e) => return Err(e),
        };
        let _ = self.db.set_setting(KEY_ACTIVE_SLOT, nat_text(slot as u64).as_str());
        let ghost mid: AppState = *self;
        assert(slot_chosen(old(self), &mid, slot));
        let session = self.tracker.get();
        match session {
            Some(s) => {
                if s.project_id == project.id {
                    if s.paused_at.is_some() {
                        let step = self.resume_session_at(now);
                        assert(resumes(&mid, self, text_result(step), now));
                        match step {
                            Ok(_) => Ok(slot_message(&self.current_lang, "slot.resumed", slot, project.name.as_str())),
                            Err(e) => Err(e),
                        }
                    } else {
                        Ok(slot_message(&self.current_lang, "slot.already_running", slot, project.name.as_str()))
                    }
                } else {
                    let was_paused = s.paused_at.is_some();
                    let step = self.start_session_at(project.id, by_gesture, now);
                    assert(starts(&mid, self, text_result(step), project.id, by_gesture, now));
                    match step {
                        Ok(_) => Ok(
                            slot_message(
                                &self.current_lang,
                                if was_paused {
                                    "slot.switched_from_pause"
                                } else {
                                    "slot.switched"
                                },
                                slot,
                                project.name.as_str(),
                            ),
                        ),
                        Err(e) => Err(e),
                    }
                }
            },
            None => {
                let step = self.start_session_at(project.id, by_gesture, now);
                assert(starts(&mid, self, text_result(step), project.id, by_gesture, now));
                match step {
                    Ok(_) => Ok(slot_message(&self.current_lang, "slot.start", slot, project.name.as_str())),
                    Err(e) => Err(e),
                }
            },
        }
    }

    /// "Start" without a named project.
    pub fn start_from_active_slot_at(&mut self, now: Moment) -> (r: AppResult<String>)
        requires
            old(self).wf(),
            now.wf(),
            old(self).fits(now),
        ensures
            final(self).wf(),
            final(self).fits(now),
            starts_from_slot(old(self), final(self), text_result(r), now),
    {
        match self.tracker.status() {
            TrackerStatus::Paused => self.resume_session_at(now),
            TrackerStatus::Running => Err(AppError::key("track.already_running")),
            TrackerStatus::Idle => {
                let slot = active_slot(&self.db);
                let chosen = match slot_project(&self.db, slot) {
                    Ok(p) => p,
                    Err(_) => None,
                };
                let first = match slot_project(&self.db, 1) {
                    Ok(p) => p,
                    Err(_) => None,
                };
                let second = match slot_project(&self.db, 2) {
                    Ok(p) => p,
                    Err(_) => None,
                };
                let project = match chosen {
                    Some(p) => Some(p),
                    None => match first {
                        Some(p) => Some(p),
                        None => second,
                    },
                };
                match project {
                    Some(p) => self.start_session_at(p.id, true, now),
                    None => Err(AppError::key("slot.no_project")),
                }
            },
        }
    }
}


// ---------- gestures ----------

/// What the overlay is told after a gesture.
#[derive(Debug)]
pub struct GestureOutcome {
    /// Was the gesture taken as an action?
    pub accepted: bool,
    /// The built-in gesture; none for a custom one.
    pub gesture: Option<Gesture>,
    pub gesture_label: String,
    pub message: String,
    pub snapshot: Snapshot,
}

/// The text shown for an action's result.
pub open spec fn message_of(step: Result<Seq<char>, ErrorView>, lang: Lang) -> Seq<char> {
    match step {
        Ok(t) => t,
        Err(e) => error_text(e, lang),
    }
}

/// The message for a gesture below the confidence threshold; both numbers
/// are percentages as text.
pub open spec fn low_confidence_text(lang: Lang, value: Seq<char>, threshold: Seq<char>) -> Seq<char> {
    filled(translated(lang, "gesture.low_confidence"@), seq![("value"@, value), ("threshold"@, threshold)])
}

/// The seconds finished today fit the integer range.
pub open spec fn today_fits(st: &AppState, now: Moment) -> bool {
    fits_i64(day_sum_all(st.db.entries_v(), today_of(now)))
}

/// `r` reports on the state `after` at `now` as given, or fails because
/// today's total leaves the integer range.
pub open spec fn reports(
    r: AppResult<GestureOutcome>,
    after: &AppState,
    accepted: bool,
    gesture: Option<Gesture>,
    label: Seq<char>,
    message: Seq<char>,
    now: Moment,
) -> bool {
    match r {
        Ok(o) => {
            &&& today_fits(after, now)
            &&& o.accepted == accepted
            &&& o.gesture == gesture
            &&& o.gesture_label@ == label
            &&& o.message@ == message
            &&& shows_state(&o.snapshot, &after.db, &after.tracker, after.lang(), now)
        },
        Err(e) => !today_fits(after, now) && e@ == overflow_error(),
    }
}

/// What each built-in gesture does. The open hand covers start and resume.
pub open spec fn gesture_acts(
    before: &AppState,
    after: &AppState,
    step: Result<Seq<char>, ErrorView>,
    gesture: Gesture,
    now: Moment,
) -> bool {
    match gesture {
        Gesture::OpenHand => starts_from_slot(before, after, step, now),
        Gesture::Fist => stops(before, after, step, now),
        Gesture::ThumbUp => pauses(before, after, step, now),
        Gesture::OneFinger => selects(before, after, step, 1, true, now),
        Gesture::TwoFingers => selects(before, after, step, 2, true, now),
    }
}

/// A gesture at `now`: below the threshold (`refusal` holds the confidence
/// and the threshold as percentages) nothing happens; otherwise its action
/// is taken, and the outcome reports the state after it.
pub open spec fn applies_gesture(
    before: &AppState,
    after: &AppState,
    r: AppResult<GestureOutcome>,
    gesture: Gesture,
    refusal: Option<(Seq<char>, Seq<char>)>,
    now: Moment,
) -> bool {
    let lang = before.lang();
    let label = translated(lang, gesture.label_key());
    match refusal {
        Some((value, threshold)) => unchanged(before, after) && reports(
            r,
            after,
            false,
            Some(gesture),
            label,
            low_confidence_text(lang, value, threshold),
            now,
        ),
        None => exists|step: Result<Seq<char>, ErrorView>|
            #[trigger] gesture_acts(before, after, step, gesture, now) && reports(
                r,
                after,
                step is Ok,
                Some(gesture),
                label,
                message_of(step, lang),
                now,
            ),
    }
}

/// What the action of a custom gesture does; it runs through the same
/// operations as the built-in gestures.
pub open spec fn custom_acts(
    before: &AppState,
    after: &AppState,
    step: Result<Seq<char>, ErrorView>,
    action: CustomAction,
    project_id: Option<i64>,
    now: Moment,
) -> bool {
    match action {
        CustomAction::Start => starts_from_slot(before, after, step, now),
        CustomAction::Stop => stops(before, after, step, now),
        CustomAction::Pause => pauses(before, after, step, now),
        CustomAction::Resume => resumes(before, after, step, now),
        CustomAction::Slot1 => selects(before, after, step, 1, true, now),
        CustomAction::Slot2 => selects(before, after, step, 2, true, now),
        CustomAction::Project => match project_id {
            Some(p) => starts(before, after, step, p, true, now),
            None => refused(before, after, step, keyed("gesture.custom_no_project"@)),
        },
    }
}

/// A custom gesture at `now`.
pub open spec fn applies_custom_gesture(
    before: &AppState,
    after: &AppState,
    r: AppResult<GestureOutcome>,
    id: i64,
    refusal: Option<(Seq<char>, Seq<char>)>,
    now: Moment,
) -> bool {
    let lang = before.lang();
    match gesture_with(before.db.gestures_v(), id) {
        None => unchanged(before, after) && (r matches Err(e) && e@ == keyed("gesture.custom_gone"@)),
        Some(g) => match refusal {
            Some((value, threshold)) => unchanged(before, after) && reports(
                r,
                after,
                false,
                None,
                g.name,
                low_confidence_text(lang, value, threshold),
                now,
            ),
            None => match action_named(g.action) {
                None => unchanged(before, after) && (r matches Err(e) && e@ == ErrorView::Key(
                    "gesture.action_unknown"@,
                    seq![("name"@, g.action)],
                )),
                Some(action) => exists|step: Result<Seq<char>, ErrorView>|
                    #[trigger] custom_acts(before, after, step, action, g.project_id, now) && reports(
                        r,
                        after,
                        step is Ok,
                        None,
                        g.name,
                        message_of(step, lang),
                        now,
                    ),
            },
        },
    }
}

pub open spec fn opt_texts(o: Option<(&str, &str)>) -> Option<(Seq<char>, Seq<char>)> {
    match o {
        Some((a, b)) => Some((a@, b@)),
        None => None,
    }
}

/// The message for a gesture below the confidence threshold.
pub fn low_confidence_message(current_lang: &CurrentLang, value: &str, threshold: &str) -> (r: String)
    ensures
        r@ == low_confidence_text(current_lang.lang, value@, threshold@),
{
    let args = vec![(owned("value"), owned(value)), (owned("threshold"), owned(threshold))];
    assert(args.deep_view() =~= seq![("value"@, value@), ("threshold"@, threshold@)]);
    msg_args(current_lang, "gesture.low_confidence", &args)
}

impl AppState {
    fn outcome_at(
        &self,
        accepted: bool,
        gesture: Option<Gesture>,
        label: String,
        message: String,
        now: Moment,
    ) -> (r: AppResult<GestureOutcome>)
        requires
            self.wf(),
            self.fits(now),
            now.wf(),
        ensures
            reports(r, self, accepted, gesture, label@, message@, now),
    {
        let snapshot = snapshot_at(&self.db, &self.tracker, &self.current_lang, now)?;
        Ok(GestureOutcome { accepted, gesture, gesture_label: label, message, snapshot })
    }

    /// Takes a recognized gesture at `now`. The confidence is checked by the
    /// caller against the stored threshold; `refusal` carries both as
    /// percentages when it is too low.
    pub fn apply_gesture_at(&mut self, gesture: Gesture, refusal: Option<(&str, &str)>, now: Moment) -> (r: AppResult<
        GestureOutcome,
    >)
        requires
            old(self).wf(),
            now.wf(),
            old(self).fits(now),
        ensures
            final(self).wf(),
            applies_gesture(old(self), final(self), r, gesture, opt_texts(refusal), now),
    {
        let label = gesture.label(&self.current_lang);
        if let Some((value, threshold)) = refusal {
            let message = low_confidence_message(&self.current_lang, value, threshold);
            return self.outcome_at(false, Some(gesture), label, message, now);
        }
        let step = match gesture {
            Gesture::OpenHand => self.start_from_active_slot_at(now),
            Gesture::Fist => self.stop_session_at(now),
            Gesture::ThumbUp => self.pause_session_at(now),
            Gesture::OneFinger => self.select_slot_at(1, true, now),
            Gesture::TwoFingers => self.select_slot_at(2, true, now),
        };
        assert(gesture_acts(old(self), self, text_result(step), gesture, now));
        let (accepted, message) = match step {
            Ok(text) => (true, text),
            Err(e) => (false, e.message(self.current_lang.lang)),
        };
        self.outcome_at(accepted, Some(gesture), label, message, now)
    }

    /// Takes a recognized custom gesture at `now`.
    pub fn apply_custom_gesture_at(&mut self, id: i64, refusal: Option<(&str, &str)>, now: Moment) -> (r: AppResult<
        GestureOutcome,
    >)
        requires
            old(self).wf(),
            now.wf(),
            old(self).fits(now),
        ensures
            final(self).wf(),
            applies_custom_gesture(old(self), final(self), r, id, opt_texts(refusal), now),
    {
        let gesture = match self.db.custom_gesture(id) {
            Ok(Some(g)) => g,
            _ => return Err(AppError::key("gesture.custom_gone")),
        };
        if let Some((value, threshold)) = refusal {
            let message = low_confidence_message(&self.current_lang, value, threshold);
            return self.outcome_at(false, None, gesture.name, message, now);
        }
        let action = parse_custom_action(gesture.action.as_str())?;
        let step = match action {
            CustomAction::Start => self.start_from_active_slot_at(now),
            CustomAction::Stop => self.stop_session_at(now),
            CustomAction::Pause => self.pause_session_at(now),
            CustomAction::Resume => self.resume_session_at(now),
            CustomAction::Slot1 => self.select_slot_at(1, true, now),
            CustomAction::Slot2 => self.select_slot_at(2, true, now),
            CustomAction::Project => match gesture.project_id {
                Some(project_id) => self.start_session_at(project_id, true, now),
                None => Err(AppError::key("gesture.custom_no_project")),
            },
        };
        assert(custom_acts(old(self), self, text_result(step), action, gesture.project_id, now));
        let (accepted, message) = match step {
            Ok(text) => (true, text),
            Err(e) => (false, e.message(self.current_lang.lang)),
        };
        self.outcome_at(accepted, None, gesture.name, message, now)
    }
}


// ---------- the same operations at the current time ----------

impl AppState {
    proof fn lemma_sane_fits(&self, now: Moment)
        requires
            self.sane(),
            now.wf(),
        ensures
            self.fits(now),
    {
        if let Some(s) = self.tracker.session {
            s.lemma_sane_fits(now);
        }
    }

    /// Can the session be computed with at any moment? Callers check this
    /// before the operations below.
    pub fn is_sane(&self) -> (r: bool)
        requires
            self.wf(),
        ensures
            r == self.sane(),
    {
        match self.tracker.session {
            Some(s) => s.is_sane(),
            None => true,
        }
    }

    /// Starts tracking a project now.
    pub fn start_session(&mut self, project_id: i64, by_gesture: bool) -> (r: AppResult<String>)
        requires
            old(self).wf(),
            old(self).sane(),
        ensures
            final(self).wf(),
            exists|now: Moment|
                #[trigger] now.wf() && starts(old(self), final(self), text_result(r), project_id, by_gesture, now),
    {
        let now = now();
        proof {
            self.lemma_sane_fits(now);
        }
        self.start_session_at(project_id, by_gesture, now)
    }

    /// Stops the running session now.
    pub fn stop_session(&mut self) -> (r: AppResult<String>)
        requires
            old(self).wf(),
            old(self).sane(),
        ensures
            final(self).wf(),
            exists|now: Moment| #[trigger] now.wf() && stops(old(self), final(self), text_result(r), now),
    {
        let now = now();
        proof {
            self.lemma_sane_fits(now);
        }
        self.stop_session_at(now)
    }

    /// Pauses the running session now.
    pub fn pause_session(&mut self) -> (r: AppResult<String>)
        requires
            old(self).wf(),
            old(self).sane(),
        ensures
            final(self).wf(),
            exists|now: Moment| #[trigger] now.wf() && pauses(old(self), final(self), text_result(r), now),
    {
        let now = now();
        proof {
            self.lemma_sane_fits(now);
        }
        self.pause_session_at(now)
    }

    /// Ends the pause now.
    pub fn resume_session(&mut self) -> (r: AppResult<String>)
        requires
            old(self).wf(),
            old(self).sane(),
        ensures
            final(self).wf(),
            exists|now: Moment| #[trigger] now.wf() && resumes(old(self), final(self), text_result(r), now),
    {
        let now = now();
        proof {
            self.lemma_sane_fits(now);
        }
        self.resume_session_at(now)
    }

    /// Chooses a slot now.
    pub fn select_slot(&mut self, slot: u8, by_gesture: bool) -> (r: AppResult<String>)
        requires
            old(self).wf(),
            old(self).sane(),
        ensures
            final(self).wf(),
            exists|now: Moment|
                #[trigger] now.wf() && selects(old(self), final(self), text_result(r), slot, by_gesture, now),
    {
        let now = now();
        proof {
            self.lemma_sane_fits(now);
        }
        self.select_slot_at(slot, by_gesture, now)
    }

    /// "Start" without a named project, now.
    pub fn start_from_active_slot(&mut self) -> (r: AppResult<String>)
        requires
            old(self).wf(),
            old(self).sane(),
        ensures
            final(self).wf(),
            exists|now: Moment| #[trigger] now.wf() && starts_from_slot(old(self), final(self), text_result(r), now),
    {
        let now = now();
        proof {
            self.lemma_sane_fits(now);
        }
        self.start_from_active_slot_at(now)
    }

    /// Takes a recognized gesture now.
    pub fn apply_gesture(&mut self, gesture: Gesture, refusal: Option<(&str, &str)>) -> (r: AppResult<GestureOutcome>)
        requires
            old(self).wf(),
            old(self).sane(),
        ensures
            final(self).wf(),
            exists|now: Moment|
                #[trigger] now.wf() && applies_gesture(old(self), final(self), r, gesture, opt_texts(refusal), now),
    {
        let now = now();
        proof {
            self.lemma_sane_fits(now);
        }
        self.apply_gesture_at(gesture, refusal, now)
    }

    /// Takes a recognized custom gesture now.
    pub fn apply_custom_gesture(&mut self, id: i64, refusal: Option<(&str, &str)>) -> (r: AppResult<GestureOutcome>)
        requires
            old(self).wf(),
            old(self).sane(),
        ensures
            final(self).wf(),
            exists|now: Moment|
                #[trigger] now.wf() && applies_custom_gesture(old(self), final(self), r, id, opt_texts(refusal), now),
    {
        let now = now();
        proof {
            self.lemma_sane_fits(now);
        }
        self.apply_custom_gesture_at(id, refusal, now)
    }
}

/// The tray's pause button at `now`: a paused session resumes, a running one
/// pauses, and with nothing running nothing happens (`None`).
pub open spec fn toggles_pause(
    before: &AppState,
    after: &AppState,
    r: Option<Result<Seq<char>, ErrorView>>,
    now: Moment,
) -> bool {
    match before.tracker.session {
        None => r is None && after == before,
        Some(s) => match r {
            None => false,
            Some(t) => if s.paused_at is Some {
                resumes(before, after, t, now)
            } else {
                pauses(before, after, t, now)
            },
        },
    }
}

/// An optional text result as plain values.
pub open spec fn opt_text_result(r: Option<AppResult<String>>) -> Option<Result<Seq<char>, ErrorView>> {
    match r {
        None => None,
        Some(t) => Some(text_result(t)),
    }
}

impl AppState {
    /// The tray's pause button at `now`.
    pub fn toggle_pause_at(&mut self, now: Moment) -> (r: Option<AppResult<String>>)
        requires
            old(self).wf(),
            now.wf(),
            old(self).fits(now),
        ensures
            final(self).wf(),
            final(self).fits(now),
            toggles_pause(old(self), final(self), opt_text_result(r), now),
    {
        match self.tracker.get() {
            None => None,
            Some(s) => if s.paused_at.is_some() {
                Some(self.resume_session_at(now))
            } else {
                Some(self.pause_session_at(now))
            },
        }
    }

    /// The tray's pause button now.
    pub fn toggle_pause(&mut self) -> (r: Option<AppResult<String>>)
        requires
            old(self).wf(),
            old(self).sane(),
        ensures
            final(self).wf(),
            exists|now: Moment| #[trigger] now.wf() && toggles_pause(old(self), final(self), opt_text_result(r), now),
    {
        let now = now();
        proof {
            self.lemma_sane_fits(now);
        }
        self.toggle_pause_at(now)
    }
}

// ---------- laws ----------

/// "Start" without a named project in the other states: a running session
/// is refused and nothing changes; a paused one resumes on the same entry
/// and project; while idle with no project on the last chosen slot, slot 1's
/// project is tracked; with no slot project at all it is refused.
pub proof fn law_start_without_project(
    before: &AppState,
    after: &AppState,
    r: Result<Seq<char>, ErrorView>,
    now: Moment,
    p: ProjectView,
)
    requires
        before.wf(),
        before.db.next_ids().1 < i64::MAX,
        starts_from_slot(before, after, r, now),
    ensures
        before.tracker.session is Some && before.tracker.session->0.paused_at is None ==> r == Err::<
            Seq<char>,
            ErrorView,
        >(keyed("track.already_running"@)) && after.db == before.db && after.tracker.session
            == before.tracker.session,
        before.tracker.session is Some && before.tracker.session->0.paused_at is Some ==> after.tracker.session is Some
            && after.tracker.session->0.entry_id == before.tracker.session->0.entry_id
            && after.tracker.session->0.project_id == before.tracker.session->0.project_id
            && after.tracker.session->0.start == before.tracker.session->0.start
            && after.tracker.session->0.paused_at is None && r == Ok::<Seq<char>, ErrorView>(
            translated(before.lang(), "track.resume"@),
        ),
        before.tracker.session is None && slot_project_of(&before.db, active_slot_of(&before.db)) is None
            && slot_project_of(&before.db, 1) == Some(p) ==> after.tracker.session is Some
            && after.tracker.session->0.project_id == p.id,
        before.tracker.session is None && slot_project_of(&before.db, active_slot_of(&before.db)) is None
            && slot_project_of(&before.db, 1) is None && slot_project_of(&before.db, 2) is None ==> r == Err::<
            Seq<char>,
            ErrorView,
        >(keyed("slot.no_project"@)) && after.db == before.db && after.tracker.session is None,
{
    if before.tracker.session is None && slot_project_of(&before.db, active_slot_of(&before.db)) is None
        && slot_project_of(&before.db, 1) == Some(p) {
        let ps = before.db.projects_v();
        let k = choose|k: int| 0 <= k < ps.len() && ps[k].id == p.id;
        assert(ps[k] == p);
        before.db.lemma_project_found(k);
    }
}

/// "Start" without a named project, while nothing runs, tracks the project
/// of the last chosen slot when that slot holds one: the new session is
/// booked on that project and the start names it.
pub proof fn law_start_follows_active_slot(
    before: &AppState,
    after: &AppState,
    r: Result<Seq<char>, ErrorView>,
    now: Moment,
    p: ProjectView,
)
    requires
        before.wf(),
        before.tracker.session is None,
        slot_project_of(&before.db, active_slot_of(&before.db)) == Some(p),
        before.db.next_ids().1 < i64::MAX,
        starts_from_slot(before, after, r, now),
    ensures
        after.tracker.session matches Some(s) && s.project_id == p.id && s.start == now,
        r == Ok::<Seq<char>, ErrorView>(filled(translated(before.lang(), "track.start"@), seq![("name"@, p.name)])),
{
    let ps = before.db.projects_v();
    let k = choose|k: int| 0 <= k < ps.len() && ps[k].id == p.id;
    assert(ps[k] == p);
    before.db.lemma_project_found(k);
}


/// Stopping closes the session's entry with the working time and pauses up
/// to the moment of stopping; afterwards nothing runs and the entry is no
/// longer open.
pub proof fn law_stop_closes_entry(before: &AppState, after: &AppState, r: Result<Seq<char>, ErrorView>, now: Moment)
    requires
        before.wf(),
        before.tracker.session is Some,
        stops(before, after, r, now),
    ensures
        after.tracker.session is None,
        r is Ok,
        !entry_open_for(after.db.entries_v(), before.tracker.session->0),
        forall|k: int|
            0 <= k < after.db.entries_v().len() && #[trigger] after.db.entries_v()[k].id
                == before.tracker.session->0.entry_id ==> after.db.entries_v()[k].end_ts == Some(
                naive_text(now.local, TS_FORMAT@),
            ) && after.db.entries_v()[k].duration == Some(before.tracker.session->0.spec_worked(now) as i64)
                && after.db.entries_v()[k].pause == before.tracker.session->0.spec_total_pause(now) as i64,
{
    let s = before.tracker.session->0;
    let es = after.db.entries_v();
    assert forall|k: int| 0 <= k < es.len() && #[trigger] es[k].id == s.entry_id implies es[k].end_ts is Some by {
        assert(es[k] == closed_at(s, now)(before.db.entries_v()[k]));
    }
}

/// A pause that ends adds exactly its length to the session's pauses, and
/// the sum is written to the entry at once.
pub proof fn law_pause_then_resume(
    a: &AppState,
    b: &AppState,
    c: &AppState,
    r1: Result<Seq<char>, ErrorView>,
    r2: Result<Seq<char>, ErrorView>,
    t1: Moment,
    t2: Moment,
)
    requires
        a.wf(),
        a.tracker.session matches Some(s) && s.paused_at is None,
        pauses(a, b, r1, t1),
        resumes(b, c, r2, t2),
        t1.secs <= t2.secs,
    ensures
        r1 is Ok && r2 is Ok,
        c.tracker.session == Some(
            Session {
                pause_seconds: (a.tracker.session->0.pause_seconds + (t2.secs - t1.secs)) as i64,
                paused_at: None,
                ..a.tracker.session->0
            },
        ),
        c.db.entries_v() == entries_where(
            a.db.entries_v(),
            a.tracker.session->0.entry_id,
            |e: EntryView| entry_paused(e, (a.tracker.session->0.pause_seconds + (t2.secs - t1.secs)) as i64),
        ),
{
}

/// Starting another project while one runs closes the running one's entry
/// first: afterwards only the new entry is open for the session.
pub proof fn law_switch_closes_previous(
    before: &AppState,
    after: &AppState,
    r: Result<Seq<char>, ErrorView>,
    project_id: i64,
    by_gesture: bool,
    now: Moment,
)
    requires
        before.wf(),
        before.tracker.session is Some,
        starts(before, after, r, project_id, by_gesture, now),
        r is Ok,
    ensures
        !entry_open_for(after.db.entries_v(), before.tracker.session->0),
        after.tracker.session matches Some(s) && s.project_id == project_id && entry_open_for(
            after.db.entries_v(),
            s,
        ),
{
    let s0 = before.tracker.session->0;
    let mid = entries_after_stop(before, now);
    let id = before.db.next_ids().1;
    let k0 = choose|k: int|
        0 <= k < before.db.entries_v().len() && #[trigger] before.db.entries_v()[k].id == s0.entry_id
            && before.db.entries_v()[k].end_ts is None && before.db.entries_v()[k].project_id == Some(s0.project_id);
    before.db.lemma_entry_ids_below_next(k0);
    let es = after.db.entries_v();
    assert(es == mid.push(opened_entry(id, project_id, now, by_gesture)));
    assert forall|k: int| 0 <= k < es.len() && #[trigger] es[k].id == s0.entry_id implies es[k].end_ts is Some by {
        if k < mid.len() {
            assert(es[k] == closed_at(s0, now)(before.db.entries_v()[k]));
        }
    }
    assert(es[es.len() - 1].id == id);
}

} // verus!
