//! The data of the application: projects, time entries, settings, custom
//! gestures and recorded gesture samples, with the queries the application
//! runs on them.
//!
//! The tables follow the SQLite schema the application stores them in: ids
//! are handed out in increasing order and never reused (`AUTOINCREMENT`),
//! and foreign keys are checked on every write (`foreign_keys = ON`).

use vstd::prelude::*;

use crate::clock::{format_ts, format_utc, now, Moment};
use crate::error::{keyed, AppError, AppResult, ErrorView};
use crate::order::Ranked;
use crate::text::{lower_ascii_text, owned, trim, trimmed};

pub mod tables;
pub mod totals;

verus! {

broadcast use vstd::seq_lib::group_to_multiset_ensures;

/// Color of a project that has none stored.
pub const DEFAULT_COLOR: &'static str = "#4f46e5";

/// How long an open entry still counts as running after a restart. Older
/// ones are closed instead of inventing a night shift.
pub const RESUME_LIMIT_SECONDS: i64 = 12 * 60 * 60;

// ---------- rows ----------

#[derive(Debug)]
pub struct Project {
    pub id: i64,
    pub name: String,
    pub color: String,
    pub active: bool,
    pub created_at: String,
}

pub struct ProjectView {
    pub id: i64,
    pub name: Seq<char>,
    pub color: Seq<char>,
    pub active: bool,
    pub created_at: Seq<char>,
}

impl View for Project {
    type V = ProjectView;

    open spec fn view(&self) -> ProjectView {
        ProjectView {
            id: self.id,
            name: self.name@,
            color: self.color@,
            active: self.active,
            created_at: self.created_at@,
        }
    }
}

impl Clone for Project {
    fn clone(&self) -> (r: Self)
        ensures
            r@ == self@,
    {
        Project {
            id: self.id,
            name: self.name.clone(),
            color: self.color.clone(),
            active: self.active,
            created_at: self.created_at.clone(),
        }
    }
}

/// A stored time entry.
#[derive(Debug)]
pub struct EntryRow {
    pub id: i64,
    pub project_id: Option<i64>,
    pub start_ts: String,
    pub end_ts: Option<String>,
    pub pause_duration_seconds: i64,
    pub duration_seconds: Option<i64>,
    pub gesture_triggered: bool,
}

pub struct EntryView {
    pub id: i64,
    pub project_id: Option<i64>,
    pub start_ts: Seq<char>,
    pub end_ts: Option<Seq<char>>,
    pub pause: i64,
    pub duration: Option<i64>,
    pub by_gesture: bool,
}

pub open spec fn opt_text(s: Option<String>) -> Option<Seq<char>> {
    match s {
        Some(t) => Some(t@),
        None => None,
    }
}

fn clone_opt_text(s: &Option<String>) -> (r: Option<String>)
    ensures
        opt_text(r) == opt_text(*s),
{
    match s {
        Some(t) => Some(t.clone()),
        None => None,
    }
}

impl View for EntryRow {
    type V = EntryView;

    open spec fn view(&self) -> EntryView {
        EntryView {
            id: self.id,
            project_id: self.project_id,
            start_ts: self.start_ts@,
            end_ts: opt_text(self.end_ts),
            pause: self.pause_duration_seconds,
            duration: self.duration_seconds,
            by_gesture: self.gesture_triggered,
        }
    }
}

/// A time entry as the evaluation shows it: with the name of its project
/// (empty when the project is gone) and zero for an unknown duration.
#[derive(Debug)]
pub struct TimeEntry {
    pub id: i64,
    pub project_id: Option<i64>,
    pub project_name: String,
    pub start_ts: String,
    pub end_ts: Option<String>,
    pub pause_duration_seconds: i64,
    pub duration_seconds: i64,
    pub gesture_triggered: bool,
}

pub struct TimeEntryView {
    pub id: i64,
    pub project_id: Option<i64>,
    pub project_name: Seq<char>,
    pub start_ts: Seq<char>,
    pub end_ts: Option<Seq<char>>,
    pub pause: i64,
    pub duration: i64,
    pub by_gesture: bool,
}

impl View for TimeEntry {
    type V = TimeEntryView;

    open spec fn view(&self) -> TimeEntryView {
        TimeEntryView {
            id: self.id,
            project_id: self.project_id,
            project_name: self.project_name@,
            start_ts: self.start_ts@,
            end_ts: opt_text(self.end_ts),
            pause: self.pause_duration_seconds,
            duration: self.duration_seconds,
            by_gesture: self.gesture_triggered,
        }
    }
}

/// A stored custom gesture.
#[derive(Debug)]
pub struct CustomGestureRow {
    pub id: i64,
    pub name: String,
    pub action: String,
    pub project_id: Option<i64>,
}

pub struct CustomGestureRowView {
    pub id: i64,
    pub name: Seq<char>,
    pub action: Seq<char>,
    pub project_id: Option<i64>,
}

impl View for CustomGestureRow {
    type V = CustomGestureRowView;

    open spec fn view(&self) -> CustomGestureRowView {
        CustomGestureRowView {
            id: self.id,
            name: self.name@,
            action: self.action@,
            project_id: self.project_id,
        }
    }
}

/// A custom gesture with the name of its project, if it has one.
#[derive(Debug)]
pub struct CustomGesture {
    pub id: i64,
    pub name: String,
    /// The action it triggers, see `state::CustomAction`.
    pub action: String,
    /// Set only for the action "start a specific project".
    pub project_id: Option<i64>,
    pub project_name: Option<String>,
}

pub struct CustomGestureView {
    pub id: i64,
    pub name: Seq<char>,
    pub action: Seq<char>,
    pub project_id: Option<i64>,
    pub project_name: Option<Seq<char>>,
}

impl View for CustomGesture {
    type V = CustomGestureView;

    open spec fn view(&self) -> CustomGestureView {
        CustomGestureView {
            id: self.id,
            name: self.name@,
            action: self.action@,
            project_id: self.project_id,
            project_name: opt_text(self.project_name),
        }
    }
}

/// A stored recording of a gesture: its key, the version of the feature set
/// and the feature vector as JSON text.
#[derive(Debug)]
pub struct SampleRow {
    pub id: i64,
    pub gesture: String,
    pub version: i64,
    pub features: String,
}

pub struct SampleView {
    pub id: i64,
    pub gesture: Seq<char>,
    pub version: i64,
    pub features: Seq<char>,
}

impl View for SampleRow {
    type V = SampleView;

    open spec fn view(&self) -> SampleView {
        SampleView {
            id: self.id,
            gesture: self.gesture@,
            version: self.version,
            features: self.features@,
        }
    }
}

/// One recording as the training reads it: gesture key and features (JSON).
#[derive(Debug)]
pub struct GestureSample {
    pub gesture: String,
    pub features: String,
}

/// Total time of one project on one day.
#[derive(Debug)]
pub struct ProjectTotal {
    pub project_id: Option<i64>,
    pub project_name: String,
    pub color: String,
    pub seconds: i64,
}

pub struct ProjectTotalView {
    pub project_id: Option<i64>,
    pub project_name: Seq<char>,
    pub color: Seq<char>,
    pub seconds: i64,
}

impl View for ProjectTotal {
    type V = ProjectTotalView;

    open spec fn view(&self) -> ProjectTotalView {
        ProjectTotalView {
            project_id: self.project_id,
            project_name: self.project_name@,
            color: self.color@,
            seconds: self.seconds,
        }
    }
}

// ---------- generic row specifications ----------

pub open spec fn project_ids_increasing(s: Seq<ProjectView>) -> bool {
    forall|i: int, j: int| #![trigger s[i], s[j]] 0 <= i < j < s.len() ==> s[i].id < s[j].id
}

pub open spec fn entry_ids_increasing(s: Seq<EntryView>) -> bool {
    forall|i: int, j: int| #![trigger s[i], s[j]] 0 <= i < j < s.len() ==> s[i].id < s[j].id
}

pub open spec fn gesture_ids_increasing(s: Seq<CustomGestureRowView>) -> bool {
    forall|i: int, j: int| #![trigger s[i], s[j]] 0 <= i < j < s.len() ==> s[i].id < s[j].id
}

pub open spec fn sample_ids_increasing(s: Seq<SampleView>) -> bool {
    forall|i: int, j: int| #![trigger s[i], s[j]] 0 <= i < j < s.len() ==> s[i].id < s[j].id
}

/// The project with the given id.
pub open spec fn project_with(s: Seq<ProjectView>, id: i64) -> Option<ProjectView> {
    if exists|i: int| 0 <= i < s.len() && s[i].id == id {
        Some(s[choose|i: int| 0 <= i < s.len() && s[i].id == id])
    } else {
        None
    }
}

/// The stored entry with the given id.
pub open spec fn entry_with(s: Seq<EntryView>, id: i64) -> Option<EntryView> {
    if exists|i: int| 0 <= i < s.len() && s[i].id == id {
        Some(s[choose|i: int| 0 <= i < s.len() && s[i].id == id])
    } else {
        None
    }
}

/// The stored custom gesture with the given id.
pub open spec fn gesture_with(s: Seq<CustomGestureRowView>, id: i64) -> Option<CustomGestureRowView> {
    if exists|i: int| 0 <= i < s.len() && s[i].id == id {
        Some(s[choose|i: int| 0 <= i < s.len() && s[i].id == id])
    } else {
        None
    }
}

/// The value stored for a setting key.
pub open spec fn setting_in(s: Seq<(Seq<char>, Seq<char>)>, key: Seq<char>) -> Option<Seq<char>> {
    if exists|i: int| 0 <= i < s.len() && s[i].0 == key {
        Some(s[choose|i: int| 0 <= i < s.len() && s[i].0 == key].1)
    } else {
        None
    }
}

pub open spec fn keys_unique(s: Seq<(Seq<char>, Seq<char>)>) -> bool {
    forall|i: int, j: int| #![trigger s[i], s[j]] 0 <= i < s.len() && 0 <= j < s.len() && s[i].0 == s[j].0 ==> i == j
}

pub open spec fn view_opt_project(o: Option<Project>) -> Option<ProjectView> {
    match o {
        Some(p) => Some(p@),
        None => None,
    }
}

/// The error SQLite reports for a write that breaks a foreign key.
pub open spec fn foreign_key_error() -> ErrorView {
    ErrorView::Key("db.error"@, seq![("error"@, "FOREIGN KEY constraint failed"@)])
}

/// The error SQLite reports when no further id can be handed out.
pub open spec fn full_error() -> ErrorView {
    ErrorView::Key("db.error"@, seq![("error"@, "database or disk is full"@)])
}

/// The error SQLite's `SUM` reports when the total leaves the integer range.
pub open spec fn overflow_error() -> ErrorView {
    ErrorView::Key("db.error"@, seq![("error"@, "integer overflow"@)])
}

fn db_error(text: &str) -> (r: AppError)
    ensures
        r@ == ErrorView::Key("db.error"@, seq![("error"@, text@)]),
{
    AppError::arg("db.error", "error", owned(text))
}

// ---------- what the writes do ----------

/// A result with its error as plain values.
pub open spec fn res_view<T>(r: AppResult<T>) -> Result<T, ErrorView> {
    match r {
        Ok(v) => Ok(v),
        Err(e) => Err(e@),
    }
}

/// Creating a project: a new active row with the trimmed name, unless the
/// name is blank or the ids have run out.
pub open spec fn project_created(before: &Db, after: &Db, name: Seq<char>, color: Seq<char>, r: Result<i64, ErrorView>) -> bool {
    &&& (match r {
        Ok(id) => {
            &&& trimmed(name).len() > 0
            &&& id == before.next_ids().0
            &&& after.projects_v() == before.projects_v().push(
                ProjectView {
                    id: id,
                    name: trimmed(name),
                    color: color,
                    active: true,
                    created_at: after.projects_v().last().created_at,
                },
            )
            &&& after.next_ids().0 == id + 1
            &&& same_except_projects(before, after)
        },
        Err(e) => {
            &&& *after == *before
            &&& if trimmed(name).len() == 0 {
                e == keyed("project.name_empty"@)
            } else {
                before.next_ids().0 == i64::MAX && e == full_error()
            }
        },
    })
}

/// Deleting a project: one with time entries is only deactivated, one that
/// a custom gesture refers to is kept (foreign key), any other is removed.
pub open spec fn project_deleted(before: &Db, after: &Db, id: i64, r: Result<bool, ErrorView>) -> bool {
    &&& (after.next_ids() == before.next_ids())
    &&& (project_in_use(before.entries_v(), id) ==> {
        &&& r matches Ok(deleted) && !deleted
        &&& after.projects_v() == before.projects_v().map_values(|p: ProjectView| deactivated(p, id))
        &&& same_except_projects(before, after)
    })
    &&& (!project_in_use(before.entries_v(), id) && project_with(before.projects_v(), id) is Some
        && project_referenced(before.gestures_v(), id) ==> {
        &&& r matches Err(e) && e == foreign_key_error()
        &&& *after == *before
    })
    &&& (!project_in_use(before.entries_v(), id) && !(project_with(before.projects_v(), id) is Some
        && project_referenced(before.gestures_v(), id)) ==> {
        &&& r matches Ok(deleted) && deleted
        &&& same_except_projects(before, after)
        &&& project_with(before.projects_v(), id) is None ==> after.projects_v() == before.projects_v()
        &&& forall|k: int| 0 <= k < before.projects_v().len() && before.projects_v()[k].id == id
            ==> after.projects_v() == before.projects_v().remove(k)
    })
}

/// Adding a finished entry by hand.
pub open spec fn entry_inserted(before: &Db, after: &Db, project_id: i64, start: Moment, end: Moment, pause_seconds: i64, duration_seconds: i64, r: Result<i64, ErrorView>) -> bool {
    &&& (match r {
        Ok(id) => {
            &&& project_with(before.projects_v(), project_id) is Some
            &&& id == before.next_ids().1
            &&& after.entries_v() == before.entries_v().push(
                EntryView {
                    id: id,
                    project_id: Some(project_id),
                    start_ts: crate::clock::naive_text(start.local, crate::clock::TS_FORMAT@),
                    end_ts: Some(crate::clock::naive_text(end.local, crate::clock::TS_FORMAT@)),
                    pause: pause_seconds,
                    duration: Some(duration_seconds),
                    by_gesture: false,
                },
            )
            &&& after.next_ids().1 == id + 1
            &&& same_except_entries(before, after)
        },
        Err(e) => {
            &&& *after == *before
            &&& if project_with(before.projects_v(), project_id) is None {
                e == foreign_key_error()
            } else {
                before.next_ids().1 == i64::MAX && e == full_error()
            }
        },
    })
}

/// Changing an entry: all fields but how it was triggered are replaced.
pub open spec fn entry_updated(before: &Db, after: &Db, id: i64, project_id: i64, start: Moment, end: Moment, pause_seconds: i64, duration_seconds: i64, r: Result<(), ErrorView>) -> bool {
    &&& (entry_with(before.entries_v(), id) is Some && project_with(before.projects_v(), project_id) is None
        ==> (r matches Err(e) && e == foreign_key_error() && *after == *before))
    &&& (!(entry_with(before.entries_v(), id) is Some && project_with(before.projects_v(), project_id) is None)
        ==> {
        &&& r is Ok
        &&& after.entries_v() == entries_where(
            before.entries_v(),
            id,
            |e: EntryView|
                entry_edited(
                    e,
                    project_id,
                    crate::clock::naive_text(start.local, crate::clock::TS_FORMAT@),
                    crate::clock::naive_text(end.local, crate::clock::TS_FORMAT@),
                    pause_seconds,
                    duration_seconds,
                ),
        )
        &&& same_except_entries(before, after)
        &&& after.next_ids() == before.next_ids()
    })
}

/// Deleting an entry.
pub open spec fn entry_deleted(before: &Db, after: &Db, id: i64, r: Result<(), ErrorView>) -> bool {
    &&& (r is Ok)
    &&& (same_except_entries(before, after))
    &&& (after.next_ids() == before.next_ids())
    &&& (entry_with(before.entries_v(), id) is None ==> after.entries_v() == before.entries_v())
    &&& (forall|k: int| 0 <= k < before.entries_v().len() && before.entries_v()[k].id == id
        ==> after.entries_v() == before.entries_v().remove(k))
}

/// Creating a custom gesture.
pub open spec fn custom_gesture_created(before: &Db, after: &Db, name: Seq<char>, action: Seq<char>, project_id: Option<i64>, r: Result<i64, ErrorView>) -> bool {
    &&& (match r {
        Ok(id) => {
            &&& trimmed(name).len() > 0
            &&& !dangling_project(before.projects_v(), project_id)
            &&& id == before.next_ids().2
            &&& after.gestures_v() == before.gestures_v().push(
                CustomGestureRowView { id: id, name: trimmed(name), action: action, project_id: project_id },
            )
            &&& after.samples_v() == before.samples_v()
            &&& after.next_ids() == (before.next_ids().0, before.next_ids().1, (id + 1) as i64, before.next_ids().3)
            &&& same_except_gestures(before, after)
        },
        Err(e) => {
            &&& *after == *before
            &&& if trimmed(name).len() == 0 {
                e == keyed("gesture.custom_needs_name"@)
            } else if dangling_project(before.projects_v(), project_id) {
                e == foreign_key_error()
            } else {
                before.next_ids().2 == i64::MAX && e == full_error()
            }
        },
    })
}

/// Changing a custom gesture.
pub open spec fn custom_gesture_updated(before: &Db, after: &Db, id: i64, name: Seq<char>, action: Seq<char>, project_id: Option<i64>, r: Result<(), ErrorView>) -> bool {
    &&& (match r {
        Ok(_) => {
            &&& trimmed(name).len() > 0
            &&& !(gesture_with(before.gestures_v(), id) is Some && dangling_project(before.projects_v(), project_id))
            &&& after.gestures_v() == before.gestures_v().map_values(
                |g: CustomGestureRowView| gesture_edited(g, id, trimmed(name), action, project_id),
            )
            &&& after.samples_v() == before.samples_v()
            &&& after.next_ids() == before.next_ids()
            &&& same_except_gestures(before, after)
        },
        Err(e) => {
            &&& *after == *before
            &&& if trimmed(name).len() == 0 {
                e == keyed("gesture.custom_needs_name"@)
            } else {
                gesture_with(before.gestures_v(), id) is Some && dangling_project(before.projects_v(), project_id)
                    && e == foreign_key_error()
            }
        },
    })
}

/// Deleting a custom gesture together with its recorded samples.
pub open spec fn custom_gesture_deleted(before: &Db, after: &Db, id: i64, r: Result<(), ErrorView>) -> bool {
    &&& (r is Ok)
    &&& (after.samples_v() == kept(before.samples_v(), |s: SampleView| not_sample_of(id, s)))
    &&& (gesture_with(before.gestures_v(), id) is None ==> after.gestures_v() == before.gestures_v())
    &&& (forall|k: int| 0 <= k < before.gestures_v().len() && before.gestures_v()[k].id == id
        ==> after.gestures_v() == before.gestures_v().remove(k))
    &&& (after.next_ids() == before.next_ids())
    &&& (same_except_gestures(before, after))
}

/// Storing recorded samples of one gesture, or nothing when the ids would
/// run out.
pub open spec fn samples_added(before: &Db, after: &Db, gesture: Seq<char>, version: i64, features: Seq<Seq<char>>, r: Result<usize, ErrorView>) -> bool {
    &&& (before.next_ids().3 as int + features.len() <= i64::MAX ==> {
        &&& r matches Ok(n) && n == features.len()
        &&& after.samples_v().len() == before.samples_v().len() + features.len()
        &&& after.samples_v().take(before.samples_v().len() as int) == before.samples_v()
        &&& forall|j: int| 0 <= j < features.len() ==> #[trigger] after.samples_v()[before.samples_v().len() + j] == sample_view((before.next_ids().3 + j) as i64, gesture, version, features[j])
        &&& after.next_ids() == (before.next_ids().0, before.next_ids().1, before.next_ids().2, (before.next_ids().3 + features.len()) as i64)
        &&& same_except_gestures(before, after)
        &&& after.gestures_v() == before.gestures_v()
    })
    &&& (before.next_ids().3 as int + features.len() > i64::MAX ==> {
        &&& r matches Err(e) && e == full_error()
        &&& *after == *before
    })
}

/// Deleting the samples of one gesture, or all of them.
pub open spec fn samples_cleared(before: &Db, after: &Db, gesture: Option<Seq<char>>, r: Result<usize, ErrorView>) -> bool {
    &&& (r matches Ok(n) && n == before.samples_v().len() - after.samples_v().len())
    &&& (after.samples_v() == kept(before.samples_v(), |s: SampleView| survives_clear(gesture, s)))
    &&& (after.next_ids() == before.next_ids())
    &&& (same_except_gestures(before, after))
    &&& (after.gestures_v() == before.gestures_v())
}

/// Changing a project's name, color and active flag.
pub open spec fn project_updated(before: &Db, after: &Db, id: i64, name: Seq<char>, color: Seq<char>, active: bool, r: Result<(), ErrorView>) -> bool {
    &&& (match r {
        Ok(_) => {
            &&& trimmed(name).len() > 0
            &&& after.projects_v() == before.projects_v().map_values(
                |p: ProjectView| renamed(p, id, trimmed(name), color, active),
            )
            &&& same_except_projects(before, after)
            &&& after.next_ids() == before.next_ids()
        },
        Err(e) => trimmed(name).len() == 0 && e == keyed("project.name_empty"@)
            && *after == *before,
    })
}

// ---------- the database ----------

/// All tables of the application.
pub struct Db {
    projects: Vec<Project>,
    entries: Vec<EntryRow>,
    settings: Vec<(String, String)>,
    gestures: Vec<CustomGestureRow>,
    samples: Vec<SampleRow>,
    next_project: i64,
    next_entry: i64,
    next_gesture: i64,
    next_sample: i64,
}

impl Db {
    pub closed spec fn projects_v(&self) -> Seq<ProjectView> {
        self.projects@.map_values(|p: Project| p@)
    }

    pub closed spec fn entries_v(&self) -> Seq<EntryView> {
        self.entries@.map_values(|e: EntryRow| e@)
    }

    pub closed spec fn settings_v(&self) -> Seq<(Seq<char>, Seq<char>)> {
        self.settings.deep_view()
    }

    pub closed spec fn gestures_v(&self) -> Seq<CustomGestureRowView> {
        self.gestures@.map_values(|g: CustomGestureRow| g@)
    }

    pub closed spec fn samples_v(&self) -> Seq<SampleView> {
        self.samples@.map_values(|s: SampleRow| s@)
    }

    /// The ids the next insert into each table receives.
    pub closed spec fn next_ids(&self) -> (i64, i64, i64, i64) {
        (self.next_project, self.next_entry, self.next_gesture, self.next_sample)
    }

    /// Ids increase along each table and stay below the next id to hand out;
    /// setting keys occur once.
    pub closed spec fn wf(&self) -> bool {
        &&& project_ids_increasing(self.projects_v())
        &&& entry_ids_increasing(self.entries_v())
        &&& gesture_ids_increasing(self.gestures_v())
        &&& sample_ids_increasing(self.samples_v())
        &&& forall|i: int| 0 <= i < self.projects@.len() ==> 0 < #[trigger] self.projects@[i].id < self.next_project
        &&& forall|i: int| 0 <= i < self.entries@.len() ==> 0 < #[trigger] self.entries@[i].id < self.next_entry
        &&& forall|i: int| 0 <= i < self.gestures@.len() ==> 0 < #[trigger] self.gestures@[i].id < self.next_gesture
        &&& forall|i: int| 0 <= i < self.samples@.len() ==> 0 < #[trigger] self.samples@[i].id < self.next_sample
        &&& self.next_project >= 1 && self.next_entry >= 1 && self.next_gesture >= 1 && self.next_sample >= 1
        &&& keys_unique(self.settings_v())
    }

    /// The value of a setting.
    pub open spec fn setting_value(&self, key: Seq<char>) -> Option<Seq<char>> {
        setting_in(self.settings_v(), key)
    }

    /// An empty database.
    pub fn new() -> (r: Db)
        ensures
            r.wf(),
            r.projects_v().len() == 0,
            r.entries_v().len() == 0,
            r.settings_v().len() == 0,
            r.gestures_v().len() == 0,
            r.samples_v().len() == 0,
            r.next_ids() == (1i64, 1i64, 1i64, 1i64),
    {
        let r = Db {
            projects: Vec::new(),
            entries: Vec::new(),
            settings: Vec::new(),
            gestures: Vec::new(),
            samples: Vec::new(),
            next_project: 1,
            next_entry: 1,
            next_gesture: 1,
            next_sample: 1,
        };
        assert(r.settings_v() =~= Seq::empty());
        r
    }
}


// ---------- lemmas on rows with unique keys ----------

proof fn lemma_setting_at(s: Seq<(Seq<char>, Seq<char>)>, i: int)
    requires
        keys_unique(s),
        0 <= i < s.len(),
    ensures
        setting_in(s, s[i].0) == Some(s[i].1),
{
    let j = choose|j: int| 0 <= j < s.len() && s[j].0 == s[i].0;
    assert(s[j].0 == s[i].0);
}

proof fn lemma_project_at(s: Seq<ProjectView>, i: int)
    requires
        project_ids_increasing(s),
        0 <= i < s.len(),
    ensures
        project_with(s, s[i].id) == Some(s[i]),
{
    let j = choose|j: int| 0 <= j < s.len() && s[j].id == s[i].id;
    if j < i {
        assert(s[j].id < s[i].id);
    } else if j > i {
        assert(s[i].id < s[j].id);
    }
}

impl Db {
    /// Every stored entry has an id below the next one to hand out.
    pub proof fn lemma_entry_ids_below_next(&self, i: int)
        requires
            self.wf(),
            0 <= i < self.entries_v().len(),
        ensures
            0 < self.entries_v()[i].id < self.next_ids().1,
    {
        assert(self.entries_v()[i] == self.entries@[i]@);
    }

    /// Project ids are unique: looking up the id of a stored project finds it.
    pub proof fn lemma_project_found(&self, i: int)
        requires
            self.wf(),
            0 <= i < self.projects_v().len(),
        ensures
            project_with(self.projects_v(), self.projects_v()[i].id) == Some(self.projects_v()[i]),
    {
        lemma_project_at(self.projects_v(), i);
    }
}

proof fn lemma_entry_at(s: Seq<EntryView>, i: int)
    requires
        entry_ids_increasing(s),
        0 <= i < s.len(),
    ensures
        entry_with(s, s[i].id) == Some(s[i]),
{
    let j = choose|j: int| 0 <= j < s.len() && s[j].id == s[i].id;
    if j < i {
        assert(s[j].id < s[i].id);
    } else if j > i {
        assert(s[i].id < s[j].id);
    }
}

proof fn lemma_gesture_at(s: Seq<CustomGestureRowView>, i: int)
    requires
        gesture_ids_increasing(s),
        0 <= i < s.len(),
    ensures
        gesture_with(s, s[i].id) == Some(s[i]),
{
    let j = choose|j: int| 0 <= j < s.len() && s[j].id == s[i].id;
    if j < i {
        assert(s[j].id < s[i].id);
    } else if j > i {
        assert(s[i].id < s[j].id);
    }
}

/// Writing a setting changes that key and no other.
proof fn lemma_setting_written(
    s: Seq<(Seq<char>, Seq<char>)>,
    s2: Seq<(Seq<char>, Seq<char>)>,
    key: Seq<char>,
    value: Seq<char>,
    k: Seq<char>,
)
    requires
        keys_unique(s),
        keys_unique(s2),
        exists|i: int| 0 <= i < s2.len() && s2[i] == (key, value),
        forall|j: int| 0 <= j < s2.len() && s2[j].0 != key ==> s.contains(s2[j]),
        forall|j: int| 0 <= j < s.len() && s[j].0 != key ==> s2.contains(s[j]),
    ensures
        setting_in(s2, k) == (if k == key {
            Some(value)
        } else {
            setting_in(s, k)
        }),
{
    if k == key {
        let i = choose|i: int| 0 <= i < s2.len() && s2[i] == (key, value);
        lemma_setting_at(s2, i);
    } else {
        if exists|j: int| 0 <= j < s2.len() && s2[j].0 == k {
            let j = choose|j: int| 0 <= j < s2.len() && s2[j].0 == k;
            lemma_setting_at(s2, j);
            assert(s.contains(s2[j]));
            let m = choose|m: int| 0 <= m < s.len() && s[m] == s2[j];
            lemma_setting_at(s, m);
        } else if exists|j: int| 0 <= j < s.len() && s[j].0 == k {
            let j = choose|j: int| 0 <= j < s.len() && s[j].0 == k;
            assert(s2.contains(s[j]));
            let m = choose|m: int| 0 <= m < s2.len() && s2[m] == s[j];
            assert(s2[m].0 == k);
        }
    }
}

/// Tables other than the settings are left alone.
pub open spec fn same_except_settings(a: &Db, b: &Db) -> bool {
    &&& a.projects_v() == b.projects_v()
    &&& a.entries_v() == b.entries_v()
    &&& a.gestures_v() == b.gestures_v()
    &&& a.samples_v() == b.samples_v()
    &&& a.next_ids() == b.next_ids()
}

/// Tables other than the projects are left alone.
pub open spec fn same_except_projects(a: &Db, b: &Db) -> bool {
    &&& a.entries_v() == b.entries_v()
    &&& a.settings_v() == b.settings_v()
    &&& a.gestures_v() == b.gestures_v()
    &&& a.samples_v() == b.samples_v()
    &&& a.next_ids().1 == b.next_ids().1
    &&& a.next_ids().2 == b.next_ids().2
    &&& a.next_ids().3 == b.next_ids().3
}

/// Tables other than the time entries are left alone.
pub open spec fn same_except_entries(a: &Db, b: &Db) -> bool {
    &&& a.projects_v() == b.projects_v()
    &&& a.settings_v() == b.settings_v()
    &&& a.gestures_v() == b.gestures_v()
    &&& a.samples_v() == b.samples_v()
    &&& a.next_ids().0 == b.next_ids().0
    &&& a.next_ids().2 == b.next_ids().2
    &&& a.next_ids().3 == b.next_ids().3
}

/// Tables other than the custom gestures and the samples are left alone.
pub open spec fn same_except_gestures(a: &Db, b: &Db) -> bool {
    &&& a.projects_v() == b.projects_v()
    &&& a.entries_v() == b.entries_v()
    &&& a.settings_v() == b.settings_v()
    &&& a.next_ids().0 == b.next_ids().0
    &&& a.next_ids().1 == b.next_ids().1
}

impl Db {
    // ---------- settings ----------

    /// The stored value of a setting.
    pub fn setting(&self, key: &str) -> (r: AppResult<Option<String>>)
        requires
            self.wf(),
        ensures
            r matches Ok(v) && opt_text(v) == self.setting_value(key@),
    {
        let mut i: usize = 0;
        while i < self.settings.len()
            invariant
                i <= self.settings.len(),
                self.wf(),
                forall|j: int| 0 <= j < i ==> (#[trigger] self.settings_v()[j]).0 != key@,
            decreases self.settings.len() - i,
        {
            assert(self.settings_v()[i as int] == (self.settings@[i as int].0@, self.settings@[i as int].1@));
            if crate::text::str_eq(self.settings[i].0.as_str(), key) {
                proof {
                    reveal(Db::wf);
                    lemma_setting_at(self.settings_v(), i as int);
                }
                return Ok(Some(self.settings[i].1.clone()));
            }
            i = i + 1;
        }
        Ok(None)
    }

    /// Stores a setting, replacing an earlier value of the same key.
    pub fn set_setting(&mut self, key: &str, value: &str) -> (r: AppResult<()>)
        requires
            old(self).wf(),
        ensures
            r is Ok,
            final(self).wf(),
            same_except_settings(old(self), final(self)),
            forall|k: Seq<char>|
                #[trigger] final(self).setting_value(k) == (if k == key@ {
                    Some(value@)
                } else {
                    old(self).setting_value(k)
                }),
    {
        let ghost s = self.settings_v();
        let mut i: usize = 0;
        while i < self.settings.len()
            invariant
                i <= self.settings.len(),
                self.settings_v() == s,
                *self == *old(self),
                old(self).wf(),
                forall|j: int| 0 <= j < i ==> (#[trigger] s[j]).0 != key@,
            decreases self.settings.len() - i,
        {
            assert(s[i as int] == (self.settings@[i as int].0@, self.settings@[i as int].1@));
            if crate::text::str_eq(self.settings[i].0.as_str(), key) {
                let pair = (owned(key), owned(value));
                self.settings.set(i, pair);
                proof {
                    let s2 = self.settings_v();
                    assert(s2 =~= s.update(i as int, (key@, value@)));
                    assert(keys_unique(s2)) by {
                        assert forall|a: int, b: int| #![trigger s2[a], s2[b]] 0 <= a < s2.len() && 0 <= b < s2.len() && s2[a].0 == s2[b].0 implies a == b by {
                            assert(s2[a].0 == s[a].0);
                            assert(s2[b].0 == s[b].0);
                        }
                    }
                    assert(s2[i as int] == (key@, value@));
                    assert forall|j: int| 0 <= j < s2.len() && s2[j].0 != key@ implies s.contains(s2[j]) by {
                        assert(s2[j] == s[j]);
                    }
                    assert forall|j: int| 0 <= j < s.len() && s[j].0 != key@ implies s2.contains(s[j]) by {
                        assert(s2[j] == s[j]);
                    }
                    assert forall|k: Seq<char>| #[trigger] setting_in(s2, k) == (if k == key@ {
                        Some(value@)
                    } else {
                        setting_in(s, k)
                    }) by {
                        lemma_setting_written(s, s2, key@, value@, k);
                    }
                }
                return Ok(());
            }
            i = i + 1;
        }
        let pair = (owned(key), owned(value));
        self.settings.push(pair);
        proof {
            let s2 = self.settings_v();
            assert(s2 =~= s.push((key@, value@)));
            assert(keys_unique(s2)) by {
                assert forall|a: int, b: int| #![trigger s2[a], s2[b]] 0 <= a < s2.len() && 0 <= b < s2.len() && s2[a].0 == s2[b].0 implies a == b by {
                    if a < s.len() && b < s.len() {
                        assert(s2[a].0 == s[a].0);
                        assert(s2[b].0 == s[b].0);
                    }
                }
            }
            assert(s2[s.len() as int] == (key@, value@));
            assert forall|j: int| 0 <= j < s2.len() && s2[j].0 != key@ implies s.contains(s2[j]) by {
                assert(s2[j] == s[j]);
            }
            assert forall|j: int| 0 <= j < s.len() && s[j].0 != key@ implies s2.contains(s[j]) by {
                assert(s2[j] == s[j]);
            }
            assert forall|k: Seq<char>| #[trigger] setting_in(s2, k) == (if k == key@ {
                Some(value@)
            } else {
                setting_in(s, k)
            }) by {
                lemma_setting_written(s, s2, key@, value@, k);
            }
        }
        Ok(())
    }
}


/// A project row with new name, color and active flag.
pub open spec fn renamed(p: ProjectView, id: i64, name: Seq<char>, color: Seq<char>, active: bool) -> ProjectView {
    if p.id == id {
        ProjectView { id: p.id, name: name, color: color, active: active, created_at: p.created_at }
    } else {
        p
    }
}

/// A project row, deactivated if it has the given id.
pub open spec fn deactivated(p: ProjectView, id: i64) -> ProjectView {
    if p.id == id {
        ProjectView { id: p.id, name: p.name, color: p.color, active: false, created_at: p.created_at }
    } else {
        p
    }
}

/// Does any time entry belong to the project?
pub open spec fn project_in_use(entries: Seq<EntryView>, id: i64) -> bool {
    exists|i: int| 0 <= i < entries.len() && entries[i].project_id == Some(id)
}

/// Does any custom gesture refer to the project?
pub open spec fn project_referenced(gestures: Seq<CustomGestureRowView>, id: i64) -> bool {
    exists|i: int| 0 <= i < gestures.len() && gestures[i].project_id == Some(id)
}

impl Db {
    fn project_position(&self, id: i64) -> (r: Option<usize>)
        requires
            self.wf(),
        ensures
            match r {
                Some(k) => k < self.projects_v().len() && self.projects_v()[k as int].id == id
                    && project_with(self.projects_v(), id) == Some(self.projects_v()[k as int]),
                None => project_with(self.projects_v(), id) is None,
            },
    {
        let mut k: usize = 0;
        while k < self.projects.len()
            invariant
                k <= self.projects.len(),
                self.wf(),
                forall|j: int| 0 <= j < k ==> (#[trigger] self.projects_v()[j]).id != id,
            decreases self.projects.len() - k,
        {
            assert(self.projects_v()[k as int].id == self.projects@[k as int].id);
            if self.projects[k].id == id {
                proof { lemma_project_at(self.projects_v(), k as int); }
                return Some(k);
            }
            k = k + 1;
        }
        None
    }

    /// The project with the given id.
    pub fn project(&self, id: i64) -> (r: AppResult<Option<Project>>)
        requires
            self.wf(),
        ensures
            r matches Ok(p) && view_opt_project(p) == project_with(self.projects_v(), id),
    {
        match self.project_position(id) {
            Some(k) => {
                let p = self.projects[k].clone();
                assert(p@ == self.projects_v()[k as int]);
                Ok(Some(p))
            },
            None => Ok(None),
        }
    }

    /// Creates an active project; the name is trimmed and must not be empty.
    pub fn create_project(&mut self, name: &str, color: &str) -> (r: AppResult<i64>)
        requires
            old(self).wf(),
        ensures
            final(self).wf(),
            project_created(old(self), final(self), name@, color@, res_view(r)),

    {
        let clean = trim(name);
        if clean.as_str().unicode_len() == 0 {
            return Err(AppError::key("project.name_empty"));
        }
        if self.next_project == i64::MAX {
            return Err(db_error("database or disk is full"));
        }
        let id = self.next_project;
        let created_at = format_utc(&now());
        let ghost before = self.projects_v();
        self.projects.push(Project { id, name: clean, color: owned(color), active: true, created_at });
        self.next_project = id + 1;
        assert(self.projects_v() =~= before.push(self.projects@.last()@));
        Ok(id)
    }

    /// Changes name, color and active flag of a project; the name is trimmed
    /// and must not be empty. An unknown id changes nothing.
    pub fn update_project(&mut self, id: i64, name: &str, color: &str, active: bool) -> (r: AppResult<()>)
        requires
            old(self).wf(),
        ensures
            final(self).wf(),
            project_updated(old(self), final(self), id, name@, color@, active, res_view(r)),

    {
        let clean = trim(name);
        if clean.as_str().unicode_len() == 0 {
            return Err(AppError::key("project.name_empty"));
        }
        let ghost before = self.projects_v();
        match self.project_position(id) {
            Some(k) => {
                let old_p = self.projects[k].clone();
                let p = Project { id: old_p.id, name: clean, color: owned(color), active, created_at: old_p.created_at };
                self.projects.set(k, p);
                proof {
                    let target = before.map_values(|p: ProjectView| renamed(p, id, trimmed(name@), color@, active));
                    assert forall|j: int| 0 <= j < before.len() implies #[trigger] self.projects_v()[j] == target[j] by {
                        if j != k {
                            if j < k {
                                assert(before[j].id < before[k as int].id);
                            } else {
                                assert(before[k as int].id < before[j].id);
                            }
                        }
                    }
                    assert(self.projects_v() =~= target);
                }
            },
            None => {
                proof {
                    let target = before.map_values(|p: ProjectView| renamed(p, id, trimmed(name@), color@, active));
                    assert forall|j: int| 0 <= j < before.len() implies #[trigger] before[j] == target[j] by {
                        if before[j].id == id {
                            assert(project_with(before, id) is Some);
                        }
                    }
                    assert(before =~= target);
                }
            },
        }
        Ok(())
    }

    /// Deletes a project, but only when no time entry belongs to it; a project
    /// with entries is deactivated instead and `false` returned, so that no
    /// billing history disappears. SQLite refuses to delete a project that a
    /// custom gesture refers to.
    pub fn delete_project(&mut self, id: i64) -> (r: AppResult<bool>)
        requires
            old(self).wf(),
        ensures
            final(self).wf(),
            project_deleted(old(self), final(self), id, res_view(r)),

    {
        let ghost before = self.projects_v();
        let mut used = false;
        let mut i: usize = 0;
        while i < self.entries.len()
            invariant
                i <= self.entries.len(),
                used == exists|j: int| 0 <= j < i && (#[trigger] self.entries_v()[j]).project_id == Some(id),
            decreases self.entries.len() - i,
        {
            assert(self.entries_v()[i as int].project_id == self.entries@[i as int].project_id);
            if self.entries[i].project_id == Some(id) {
                used = true;
            }
            i = i + 1;
        }
        let pos = self.project_position(id);
        if used {
            match pos {
                Some(k) => {
                    let old_p = self.projects[k].clone();
                    let p = Project { id: old_p.id, name: old_p.name, color: old_p.color, active: false, created_at: old_p.created_at };
                    self.projects.set(k, p);
                    proof {
                        let target = before.map_values(|p: ProjectView| deactivated(p, id));
                        assert forall|j: int| 0 <= j < before.len() implies #[trigger] self.projects_v()[j] == target[j] by {
                            if j != k {
                                if j < k {
                                    assert(before[j].id < before[k as int].id);
                                } else {
                                    assert(before[k as int].id < before[j].id);
                                }
                            }
                        }
                        assert(self.projects_v() =~= target);
                    }
                },
                None => {
                    proof {
                        let target = before.map_values(|p: ProjectView| deactivated(p, id));
                        assert forall|j: int| 0 <= j < before.len() implies #[trigger] before[j] == target[j] by {
                            if before[j].id == id {
                                assert(project_with(before, id) is Some);
                            }
                        }
                        assert(before =~= target);
                    }
                },
            }
            return Ok(false);
        }
        match pos {
            None => Ok(true),
            Some(k) => {
                let mut referenced = false;
                let mut g: usize = 0;
                while g < self.gestures.len()
                    invariant
                        g <= self.gestures.len(),
                        referenced == exists|j: int| 0 <= j < g && (#[trigger] self.gestures_v()[j]).project_id == Some(id),
                    decreases self.gestures.len() - g,
                {
                    assert(self.gestures_v()[g as int].project_id == self.gestures@[g as int].project_id);
                    if self.gestures[g].project_id == Some(id) {
                        referenced = true;
                    }
                    g = g + 1;
                }
                if referenced {
                    return Err(db_error("FOREIGN KEY constraint failed"));
                }
                self.projects.remove(k);
                proof {
                    assert(self.projects_v() =~= before.remove(k as int));
                    assert forall|m: int| 0 <= m < before.len() && before[m].id == id implies m == k by {
                        if m < k {
                            assert(before[m].id < before[k as int].id);
                        } else if m > k {
                            assert(before[k as int].id < before[m].id);
                        }
                    }
                    assert forall|a: int, b: int| #![trigger self.projects_v()[a], self.projects_v()[b]] 0 <= a < b < self.projects_v().len() implies self.projects_v()[a].id < self.projects_v()[b].id by {
                        let a0 = if a < k { a } else { a + 1 };
                        let b0 = if b < k { b } else { b + 1 };
                        assert(before[a0].id < before[b0].id);
                    }
                }
                Ok(true)
            },
        }
    }
}


/// The entry, closed at `end` with the given pause and net duration.
pub open spec fn entry_closed(e: EntryView, end: Seq<char>, pause: i64, duration: i64) -> EntryView {
    EntryView {
        id: e.id,
        project_id: e.project_id,
        start_ts: e.start_ts,
        end_ts: Some(end),
        pause: pause,
        duration: Some(duration),
        by_gesture: e.by_gesture,
    }
}

/// The entry with a new pause.
pub open spec fn entry_paused(e: EntryView, pause: i64) -> EntryView {
    EntryView {
        id: e.id,
        project_id: e.project_id,
        start_ts: e.start_ts,
        end_ts: e.end_ts,
        pause: pause,
        duration: e.duration,
        by_gesture: e.by_gesture,
    }
}

/// The entry with all editable fields replaced; how it was triggered stays.
pub open spec fn entry_edited(
    e: EntryView,
    project_id: i64,
    start: Seq<char>,
    end: Seq<char>,
    pause: i64,
    duration: i64,
) -> EntryView {
    EntryView {
        id: e.id,
        project_id: Some(project_id),
        start_ts: start,
        end_ts: Some(end),
        pause: pause,
        duration: Some(duration),
        by_gesture: e.by_gesture,
    }
}

/// Editing an entry stores the formatted start moment as its start stamp
/// and the formatted end moment as its end stamp, never the other way
/// round, with the new project, pause and net time; the entry keeps its id
/// and how it was triggered.
pub proof fn law_edited_entry_stamps(
    before: &Db,
    after: &Db,
    id: i64,
    project_id: i64,
    start: Moment,
    end: Moment,
    pause_seconds: i64,
    duration_seconds: i64,
    r: Result<(), ErrorView>,
)
    requires
        before.wf(),
        entry_with(before.entries_v(), id) is Some,
        project_with(before.projects_v(), project_id) is Some,
        entry_updated(before, after, id, project_id, start, end, pause_seconds, duration_seconds, r),
    ensures
        r is Ok,
        entry_with(after.entries_v(), id) matches Some(e) && {
            &&& e.id == id
            &&& e.start_ts == crate::clock::naive_text(start.local, crate::clock::TS_FORMAT@)
            &&& e.end_ts == Some(crate::clock::naive_text(end.local, crate::clock::TS_FORMAT@))
            &&& e.project_id == Some(project_id)
            &&& e.pause == pause_seconds
            &&& e.duration == Some(duration_seconds)
            &&& e.by_gesture == entry_with(before.entries_v(), id)->0.by_gesture
        },
{
    let s = before.entries_v();
    let t = after.entries_v();
    let k = choose|i: int| 0 <= i < s.len() && s[i].id == id;
    assert(entry_ids_increasing(s));
    assert(t.len() == s.len());
    assert(t[k].id == id);
    let j = choose|i: int| 0 <= i < t.len() && t[i].id == id;
    assert(s[j].id == t[j].id);
    assert(j == k) by {
        if j < k {
            assert(s[j].id < s[k].id);
        } else if j > k {
            assert(s[k].id < s[j].id);
        }
    }
    assert(entry_with(s, id) == Some(s[k]));
}

/// A new entry by hand is stored under the id handed out, with the
/// formatted start moment as its start stamp and the formatted end moment as
/// its end stamp, never the other way round, and as not triggered by a
/// gesture.
pub proof fn law_inserted_entry_stamps(
    before: &Db,
    after: &Db,
    project_id: i64,
    start: Moment,
    end: Moment,
    pause_seconds: i64,
    duration_seconds: i64,
    id: i64,
)
    requires
        before.wf(),
        entry_inserted(before, after, project_id, start, end, pause_seconds, duration_seconds, Ok(id)),
    ensures
        entry_with(after.entries_v(), id) matches Some(e) && {
            &&& e.id == id
            &&& e.start_ts == crate::clock::naive_text(start.local, crate::clock::TS_FORMAT@)
            &&& e.end_ts == Some(crate::clock::naive_text(end.local, crate::clock::TS_FORMAT@))
            &&& e.project_id == Some(project_id)
            &&& e.pause == pause_seconds
            &&& e.duration == Some(duration_seconds)
            &&& !e.by_gesture
        },
{
    let s = before.entries_v();
    let t = after.entries_v();
    let n = s.len() as int;
    assert(t[n].id == id);
    let j = choose|i: int| 0 <= i < t.len() && t[i].id == id;
    assert(j == n) by {
        if j < n {
            reveal(Db::wf);
            assert(t[j] == s[j]);
            assert(0 < before.entries@[j].id < before.next_entry);
            assert(before.entries_v()[j].id == before.entries@[j].id);
        }
    }
}

/// Applies `f` to the entry with the given id.
pub open spec fn entries_where(s: Seq<EntryView>, id: i64, f: spec_fn(EntryView) -> EntryView) -> Seq<EntryView> {
    s.map_values(|e: EntryView| if e.id == id { f(e) } else { e })
}

/// An entry left open by an earlier run: no end, and a project.
pub open spec fn is_open(e: EntryView) -> bool {
    e.end_ts is None && e.project_id is Some
}

/// Index of the open entry with the highest id.
pub open spec fn last_open(s: Seq<EntryView>) -> Option<int>
    decreases s.len(),
{
    if s.len() == 0 {
        None
    } else if is_open(s.last()) {
        Some(s.len() - 1)
    } else {
        last_open(s.drop_last())
    }
}

/// Name of a project for display: empty when there is none.
pub open spec fn project_name_of(projects: Seq<ProjectView>, id: Option<i64>) -> Seq<char> {
    match id {
        Some(p) => match project_with(projects, p) {
            Some(pr) => pr.name,
            None => Seq::empty(),
        },
        None => Seq::empty(),
    }
}

/// An entry as the evaluation shows it.
pub open spec fn joined(e: EntryView, projects: Seq<ProjectView>) -> TimeEntryView {
    TimeEntryView {
        id: e.id,
        project_id: e.project_id,
        project_name: project_name_of(projects, e.project_id),
        start_ts: e.start_ts,
        end_ts: e.end_ts,
        pause: e.pause,
        duration: match e.duration {
            Some(d) => d,
            None => 0,
        },
        by_gesture: e.by_gesture,
    }
}

pub open spec fn view_opt_entry(o: Option<TimeEntry>) -> Option<TimeEntryView> {
    match o {
        Some(e) => Some(e@),
        None => None,
    }
}

proof fn lemma_entries_where(
    before: Seq<EntryView>,
    after: Seq<EntryView>,
    k: int,
    id: i64,
    f: spec_fn(EntryView) -> EntryView,
)
    requires
        entry_ids_increasing(before),
        0 <= k < before.len(),
        before[k].id == id,
        after == before.update(k, f(before[k])),
    ensures
        after == entries_where(before, id, f),
{
    assert forall|j: int| 0 <= j < before.len() implies #[trigger] after[j] == entries_where(before, id, f)[j] by {
        if j < k {
            assert(before[j].id < before[k].id);
        } else if j > k {
            assert(before[k].id < before[j].id);
        }
    }
    assert(after =~= entries_where(before, id, f));
}

proof fn lemma_entries_where_none(before: Seq<EntryView>, id: i64, f: spec_fn(EntryView) -> EntryView)
    requires
        entry_with(before, id) is None,
    ensures
        before == entries_where(before, id, f),
{
    assert forall|j: int| 0 <= j < before.len() implies #[trigger] before[j] == entries_where(before, id, f)[j] by {
        if before[j].id == id {
            assert(entry_with(before, id) is Some);
        }
    }
    assert(before =~= entries_where(before, id, f));
}

fn clone_entry(e: &EntryRow) -> (r: EntryRow)
    ensures
        r@ == e@,
{
    EntryRow {
        id: e.id,
        project_id: e.project_id,
        start_ts: e.start_ts.clone(),
        end_ts: clone_opt_text(&e.end_ts),
        pause_duration_seconds: e.pause_duration_seconds,
        duration_seconds: e.duration_seconds,
        gesture_triggered: e.gesture_triggered,
    }
}

impl Db {
    fn entry_position(&self, id: i64) -> (r: Option<usize>)
        requires
            self.wf(),
        ensures
            match r {
                Some(k) => k < self.entries_v().len() && self.entries_v()[k as int].id == id
                    && entry_with(self.entries_v(), id) == Some(self.entries_v()[k as int]),
                None => entry_with(self.entries_v(), id) is None,
            },
    {
        let mut k: usize = 0;
        while k < self.entries.len()
            invariant
                k <= self.entries.len(),
                self.wf(),
                forall|j: int| 0 <= j < k ==> (#[trigger] self.entries_v()[j]).id != id,
            decreases self.entries.len() - k,
        {
            assert(self.entries_v()[k as int].id == self.entries@[k as int].id);
            if self.entries[k].id == id {
                proof { lemma_entry_at(self.entries_v(), k as int); }
                return Some(k);
            }
            k = k + 1;
        }
        None
    }

    fn push_entry(&mut self, row: EntryRow) -> (id: i64)
        requires
            old(self).wf(),
            old(self).next_entry < i64::MAX,
            row.id == old(self).next_entry,
        ensures
            final(self).wf(),
            id == old(self).next_ids().1,
            final(self).entries_v() == old(self).entries_v().push(row@),
            final(self).next_ids().1 == id + 1,
            same_except_entries(old(self), final(self)),
    {
        let id = row.id;
        let ghost before = self.entries_v();
        self.entries.push(row);
        self.next_entry = id + 1;
        assert(self.entries_v() =~= before.push(row@));
        id
    }

    /// Opens a time entry for a project, starting at `start`, without end.
    pub fn open_entry(&mut self, project_id: i64, start: &Moment, gesture_triggered: bool) -> (r: AppResult<i64>)
        requires
            old(self).wf(),
            start.wf(),
        ensures
            final(self).wf(),
            match r {
                Ok(id) => {
                    &&& project_with(old(self).projects_v(), project_id) is Some
                    &&& id == old(self).next_ids().1
                    &&& final(self).entries_v() == old(self).entries_v().push(
                        EntryView {
                            id: id,
                            project_id: Some(project_id),
                            start_ts: crate::clock::naive_text(start.local, crate::clock::TS_FORMAT@),
                            end_ts: None,
                            pause: 0,
                            duration: None,
                            by_gesture: gesture_triggered,
                        },
                    )
                    &&& final(self).next_ids().1 == id + 1
                    &&& same_except_entries(old(self), final(self))
                },
                Err(e) => {
                    &&& *final(self) == *old(self)
                    &&& if project_with(old(self).projects_v(), project_id) is None {
                        e@ == foreign_key_error()
                    } else {
                        old(self).next_ids().1 == i64::MAX && e@ == full_error()
                    }
                },
            },
    {
        if self.project_position(project_id).is_none() {
            return Err(db_error("FOREIGN KEY constraint failed"));
        }
        if self.next_entry == i64::MAX {
            return Err(db_error("database or disk is full"));
        }
        let row = EntryRow {
            id: self.next_entry,
            project_id: Some(project_id),
            start_ts: format_ts(start),
            end_ts: None,
            pause_duration_seconds: 0,
            duration_seconds: None,
            gesture_triggered,
        };
        Ok(self.push_entry(row))
    }

    /// Closes an entry: end time, pause and net duration. An unknown id
    /// changes nothing.
    pub fn close_entry(&mut self, entry_id: i64, end: &Moment, pause_seconds: i64, duration_seconds: i64) -> (r: AppResult<()>)
        requires
            old(self).wf(),
            end.wf(),
        ensures
            r is Ok,
            final(self).wf(),
            final(self).entries_v() == entries_where(
                old(self).entries_v(),
                entry_id,
                |e: EntryView| entry_closed(e, crate::clock::naive_text(end.local, crate::clock::TS_FORMAT@), pause_seconds, duration_seconds),
            ),
            same_except_entries(old(self), final(self)),
            final(self).next_ids() == old(self).next_ids(),
    {
        let stamp = format_ts(end);
        let ghost f = |e: EntryView| entry_closed(e, stamp@, pause_seconds, duration_seconds);
        let ghost before = self.entries_v();
        match self.entry_position(entry_id) {
            Some(k) => {
                let mut e = clone_entry(&self.entries[k]);
                e.end_ts = Some(stamp);
                e.pause_duration_seconds = pause_seconds;
                e.duration_seconds = Some(duration_seconds);
                self.entries.set(k, e);
                proof {
                    assert(self.entries_v() =~= before.update(k as int, f(before[k as int])));
                    lemma_entries_where(before, self.entries_v(), k as int, entry_id, f);
                }
            },
            None => {
                proof { lemma_entries_where_none(before, entry_id, f); }
            },
        }
        Ok(())
    }

    /// Stores the pause of an entry, so that it survives a crash.
    pub fn set_entry_pause(&mut self, entry_id: i64, pause_seconds: i64) -> (r: AppResult<()>)
        requires
            old(self).wf(),
        ensures
            r is Ok,
            final(self).wf(),
            final(self).entries_v() == entries_where(
                old(self).entries_v(),
                entry_id,
                |e: EntryView| entry_paused(e, pause_seconds),
            ),
            same_except_entries(old(self), final(self)),
            final(self).next_ids() == old(self).next_ids(),
    {
        let ghost f = |e: EntryView| entry_paused(e, pause_seconds);
        let ghost before = self.entries_v();
        match self.entry_position(entry_id) {
            Some(k) => {
                let mut e = clone_entry(&self.entries[k]);
                e.pause_duration_seconds = pause_seconds;
                self.entries.set(k, e);
                proof {
                    assert(self.entries_v() =~= before.update(k as int, f(before[k as int])));
                    lemma_entries_where(before, self.entries_v(), k as int, entry_id, f);
                }
            },
            None => {
                proof { lemma_entries_where_none(before, entry_id, f); }
            },
        }
        Ok(())
    }

    /// An entry left open by an earlier run (after a crash): the open entry
    /// with the highest id, with its project, start and pause.
    pub fn dangling_entry(&self) -> (r: AppResult<Option<(i64, i64, Moment, i64)>>)
        requires
            self.wf(),
        ensures
            match last_open(self.entries_v()) {
                None => r matches Ok(None),
                Some(i) => {
                    let e = self.entries_v()[i];
                    match r {
                        Ok(found) => match found {
                            Some(d) => {
                                &&& d.0 == e.id
                                &&& e.project_id == Some(d.1)
                                &&& d.3 == e.pause
                                &&& d.2.wf()
                                &&& crate::clock::naive_read(e.start_ts, crate::clock::TS_FORMAT@) == Some(d.2.local)
                            },
                            None => false,
                        },
                        Err(err) => match crate::clock::naive_read(e.start_ts, crate::clock::TS_FORMAT@) {
                            None => err@ == ErrorView::Key("db.bad_timestamp"@, seq![("value"@, e.start_ts)]),
                            Some(_) => err@ == ErrorView::Key(
                                "entry.ambiguous_timestamp"@,
                                seq![("value"@, e.start_ts)],
                            ),
                        },
                    }
                },
            },
    {
        let mut k: usize = self.entries.len();
        assert(self.entries_v().take(k as int) =~= self.entries_v());
        while k > 0
            invariant
                k <= self.entries.len(),
                self.wf(),
                last_open(self.entries_v()) == last_open(self.entries_v().take(k as int)),
            decreases k,
        {
            let e = &self.entries[k - 1];
            assert(self.entries_v().take(k as int).last() == self.entries_v()[k - 1]);
            assert(self.entries_v()[k - 1] == e@);
            if e.end_ts.is_none() && e.project_id.is_some() {
                let project_id = match e.project_id {
                    Some(p) => p,
                    None => 0,
                };
                return match crate::clock::parse_ts(e.start_ts.as_str()) {
                    Ok(start) => Ok(Some((e.id, project_id, start, e.pause_duration_seconds))),
                    Err(err) => Err(err),
                };
            }
            assert(self.entries_v().take(k as int).drop_last() =~= self.entries_v().take(k - 1));
            k = k - 1;
        }
        Ok(None)
    }

    /// A single entry as the evaluation shows it.
    pub fn entry(&self, id: i64) -> (r: AppResult<Option<TimeEntry>>)
        requires
            self.wf(),
        ensures
            r matches Ok(e) && view_opt_entry(e) == match entry_with(self.entries_v(), id) {
                Some(row) => Some(joined(row, self.projects_v())),
                None => None,
            },
    {
        match self.entry_position(id) {
            Some(k) => Ok(Some(self.joined_entry(k))),
            None => Ok(None),
        }
    }

    /// Display name of a project id: empty when there is none.
    fn project_name_for(&self, id: Option<i64>) -> (r: String)
        requires
            self.wf(),
        ensures
            r@ == project_name_of(self.projects_v(), id),
    {
        match id {
            Some(p) => match self.project_position(p) {
                Some(k) => self.projects[k].name.clone(),
                None => String::new(),
            },
            None => String::new(),
        }
    }

    fn joined_entry(&self, k: usize) -> (r: TimeEntry)
        requires
            self.wf(),
            k < self.entries_v().len(),
        ensures
            r@ == joined(self.entries_v()[k as int], self.projects_v()),
    {
        let e = &self.entries[k];
        assert(self.entries_v()[k as int] == e@);
        TimeEntry {
            id: e.id,
            project_id: e.project_id,
            project_name: self.project_name_for(e.project_id),
            start_ts: e.start_ts.clone(),
            end_ts: clone_opt_text(&e.end_ts),
            pause_duration_seconds: e.pause_duration_seconds,
            duration_seconds: match e.duration_seconds {
                Some(d) => d,
                None => 0,
            },
            gesture_triggered: e.gesture_triggered,
        }
    }

    /// A complete entry entered by hand (not triggered by a gesture).
    pub fn insert_entry(
        &mut self,
        project_id: i64,
        start: &Moment,
        end: &Moment,
        pause_seconds: i64,
        duration_seconds: i64,
    ) -> (r: AppResult<i64>)
        requires
            old(self).wf(),
            start.wf(),
            end.wf(),
        ensures
            final(self).wf(),
            entry_inserted(old(self), final(self), project_id, *start, *end, pause_seconds, duration_seconds, res_view(r)),

    {
        if self.project_position(project_id).is_none() {
            return Err(db_error("FOREIGN KEY constraint failed"));
        }
        if self.next_entry == i64::MAX {
            return Err(db_error("database or disk is full"));
        }
        let row = EntryRow {
            id: self.next_entry,
            project_id: Some(project_id),
            start_ts: format_ts(start),
            end_ts: Some(format_ts(end)),
            pause_duration_seconds: pause_seconds,
            duration_seconds: Some(duration_seconds),
            gesture_triggered: false,
        };
        Ok(self.push_entry(row))
    }

    /// Replaces the editable fields of an entry. An unknown id changes nothing.
    pub fn update_entry(
        &mut self,
        id: i64,
        project_id: i64,
        start: &Moment,
        end: &Moment,
        pause_seconds: i64,
        duration_seconds: i64,
    ) -> (r: AppResult<()>)
        requires
            old(self).wf(),
            start.wf(),
            end.wf(),
        ensures
            final(self).wf(),
            entry_updated(old(self), final(self), id, project_id, *start, *end, pause_seconds, duration_seconds, res_view(r)),

    {
        let start_ts = format_ts(start);
        let end_ts = format_ts(end);
        let ghost f = |e: EntryView| entry_edited(e, project_id, start_ts@, end_ts@, pause_seconds, duration_seconds);
        let ghost before = self.entries_v();
        match self.entry_position(id) {
            Some(k) => {
                if self.project_position(project_id).is_none() {
                    return Err(db_error("FOREIGN KEY constraint failed"));
                }
                let mut e = clone_entry(&self.entries[k]);
                e.project_id = Some(project_id);
                e.start_ts = start_ts;
                e.end_ts = Some(end_ts);
                e.pause_duration_seconds = pause_seconds;
                e.duration_seconds = Some(duration_seconds);
                self.entries.set(k, e);
                proof {
                    assert(self.entries_v() =~= before.update(k as int, f(before[k as int])));
                    lemma_entries_where(before, self.entries_v(), k as int, id, f);
                }
            },
            None => {
                proof { lemma_entries_where_none(before, id, f); }
            },
        }
        Ok(())
    }

    /// Deletes an entry. An unknown id changes nothing.
    pub fn delete_entry(&mut self, id: i64) -> (r: AppResult<()>)
        requires
            old(self).wf(),
        ensures
            final(self).wf(),
            entry_deleted(old(self), final(self), id, res_view(r)),

    {
        let ghost before = self.entries_v();
        match self.entry_position(id) {
            Some(k) => {
                self.entries.remove(k);
                proof {
                    assert(self.entries_v() =~= before.remove(k as int));
                    assert forall|m: int| 0 <= m < before.len() && before[m].id == id implies m == k by {
                        if m < k {
                            assert(before[m].id < before[k as int].id);
                        } else if m > k {
                            assert(before[k as int].id < before[m].id);
                        }
                    }
                    assert forall|a: int, b: int| #![trigger self.entries_v()[a], self.entries_v()[b]] 0 <= a < b < self.entries_v().len() implies self.entries_v()[a].id < self.entries_v()[b].id by {
                        let a0 = if a < k { a } else { a + 1 };
                        let b0 = if b < k { b } else { b + 1 };
                        assert(before[a0].id < before[b0].id);
                    }
                }
            },
            None => {},
        }
        Ok(())
    }
}


/// A custom gesture with the name of its project, if any.
pub open spec fn gesture_joined(g: CustomGestureRowView, projects: Seq<ProjectView>) -> CustomGestureView {
    CustomGestureView {
        id: g.id,
        name: g.name,
        action: g.action,
        project_id: g.project_id,
        project_name: match g.project_id {
            Some(p) => match project_with(projects, p) {
                Some(pr) => Some(pr.name),
                None => None,
            },
            None => None,
        },
    }
}

pub open spec fn view_opt_gesture(o: Option<CustomGesture>) -> Option<CustomGestureView> {
    match o {
        Some(g) => Some(g@),
        None => None,
    }
}

/// A custom gesture row with new name, action and project.
pub open spec fn gesture_edited(
    g: CustomGestureRowView,
    id: i64,
    name: Seq<char>,
    action: Seq<char>,
    project_id: Option<i64>,
) -> CustomGestureRowView {
    if g.id == id {
        CustomGestureRowView { id: g.id, name: name, action: action, project_id: project_id }
    } else {
        g
    }
}

/// Would the project id break the foreign key?
pub open spec fn dangling_project(projects: Seq<ProjectView>, project_id: Option<i64>) -> bool {
    project_id matches Some(p) && project_with(projects, p) is None
}

/// The rows of `s` that satisfy `keep`, in order.
pub open spec fn kept(s: Seq<SampleView>, keep: spec_fn(SampleView) -> bool) -> Seq<SampleView>
    decreases s.len(),
{
    if s.len() == 0 {
        s
    } else if keep(s.last()) {
        kept(s.drop_last(), keep).push(s.last())
    } else {
        kept(s.drop_last(), keep)
    }
}

proof fn lemma_kept_from(s: Seq<SampleView>, keep: spec_fn(SampleView) -> bool)
    ensures
        forall|i: int| 0 <= i < kept(s, keep).len() ==> s.contains(#[trigger] kept(s, keep)[i]),
        kept(s, keep).len() <= s.len(),
        sample_ids_increasing(s) ==> sample_ids_increasing(kept(s, keep)),
    decreases s.len(),
{
    if s.len() > 0 {
        let t = s.drop_last();
        lemma_kept_from(t, keep);
        assert forall|i: int| 0 <= i < t.len() implies s.contains(#[trigger] t[i]) by {
            assert(s[i] == t[i]);
        }
        assert(s[s.len() - 1] == s.last());
        if sample_ids_increasing(s) && keep(s.last()) {
            let k = kept(t, keep);
            assert forall|a: int, b: int| #![trigger kept(s, keep)[a], kept(s, keep)[b]] 0 <= a < b < kept(s, keep).len() implies kept(s, keep)[a].id < kept(s, keep)[b].id by {
                if b == k.len() {
                    assert(t.contains(k[a]));
                    let m = choose|m: int| 0 <= m < t.len() && t[m] == k[a];
                    assert(s[m] == t[m]);
                }
            }
        }
    }
}

/// A sample that survives deleting custom gesture `id`.
pub open spec fn not_sample_of(id: i64, s: SampleView) -> bool {
    s.gesture != crate::state::custom_key(id)
}

/// A sample that survives clearing `gesture` (all samples when none is named).
pub open spec fn survives_clear(gesture: Option<Seq<char>>, s: SampleView) -> bool {
    match gesture {
        Some(g) => s.gesture != g,
        None => false,
    }
}

/// A sample whose key is known or belongs to an existing custom gesture.
pub open spec fn survives_prune(known: Seq<Seq<char>>, gestures: Seq<CustomGestureRowView>, s: SampleView) -> bool {
    (exists|i: int| 0 <= i < known.len() && known[i] == s.gesture) || (exists|g: int|
        0 <= g < gestures.len() && crate::state::custom_key(gestures[g].id) == s.gesture)
}

pub open spec fn opt_str(o: Option<&str>) -> Option<Seq<char>> {
    match o {
        Some(g) => Some(g@),
        None => None,
    }
}

/// A sample row.
pub open spec fn sample_view(id: i64, gesture: Seq<char>, version: i64, features: Seq<char>) -> SampleView {
    SampleView { id: id, gesture: gesture, version: version, features: features }
}

/// A sample's rows in order, for one version of the feature set.
pub open spec fn samples_of_version(s: Seq<SampleView>, version: i64) -> Seq<(Seq<char>, Seq<char>)>
    decreases s.len(),
{
    if s.len() == 0 {
        Seq::empty()
    } else if s.last().version == version {
        samples_of_version(s.drop_last(), version).push((s.last().gesture, s.last().features))
    } else {
        samples_of_version(s.drop_last(), version)
    }
}

/// How many samples of the given version belong to gesture `g`.
pub open spec fn sample_count(s: Seq<SampleView>, version: i64, g: Seq<char>) -> nat
    decreases s.len(),
{
    if s.len() == 0 {
        0
    } else {
        sample_count(s.drop_last(), version, g) + if s.last().version == version && s.last().gesture == g {
            1nat
        } else {
            0nat
        }
    }
}

/// Gesture keys with their number of samples of one version, ordered by key.
pub open spec fn is_count_table(r: Seq<(Seq<char>, i64)>, s: Seq<SampleView>, version: i64) -> bool {
    &&& forall|i: int| 0 <= i < r.len() ==> (#[trigger] r[i]).1 == sample_count(s, version, r[i].0) && r[i].1 > 0
    &&& forall|j: int| 0 <= j < s.len() && (#[trigger] s[j]).version == version ==> exists|i: int| 0 <= i < r.len() && r[i].0 == s[j].gesture
    &&& forall|i: int, k: int| #![trigger r[i], r[k]] 0 <= i < k < r.len() ==> crate::order::text_le(r[i].0, r[k].0) && r[i].0 != r[k].0
}

fn clone_sample(s: &SampleRow) -> (r: SampleRow)
    ensures
        r@ == s@,
{
    SampleRow { id: s.id, gesture: s.gesture.clone(), version: s.version, features: s.features.clone() }
}

/// A gesture key with its count, ordered by key.
pub struct GestureCount {
    pub gesture: Vec<char>,
    pub count: i64,
}

impl crate::order::Ranked for GestureCount {
    open spec fn precedes(&self, other: &Self) -> bool {
        crate::order::text_le(self.gesture@, other.gesture@)
    }

    proof fn lemma_total(a: &Self, b: &Self) {
        crate::order::lemma_text_le_total(a.gesture@, b.gesture@);
    }

    proof fn lemma_trans(a: &Self, b: &Self, c: &Self) {
        crate::order::lemma_text_le_trans(a.gesture@, b.gesture@, c.gesture@);
    }

    fn precedes_exec(&self, other: &Self) -> (r: bool) {
        crate::order::text_le_exec(&self.gesture, &other.gesture)
    }
}

proof fn lemma_sample_count_bound(s: Seq<SampleView>, version: i64)
    ensures
        forall|g: Seq<char>| #[trigger] sample_count(s, version, g) <= s.len(),
    decreases s.len(),
{
    if s.len() > 0 {
        lemma_sample_count_bound(s.drop_last(), version);
        assert forall|g: Seq<char>| #[trigger] sample_count(s, version, g) <= s.len() by {
            assert(sample_count(s.drop_last(), version, g) <= s.drop_last().len());
        }
    }
}

proof fn lemma_sample_ids_from_one(s: Seq<SampleView>, k: int)
    requires
        sample_ids_increasing(s),
        forall|j: int| 0 <= j < s.len() ==> (#[trigger] s[j]).id > 0,
        0 <= k < s.len(),
    ensures
        s[k].id >= k + 1,
    decreases k,
{
    if k > 0 {
        lemma_sample_ids_from_one(s, k - 1);
        assert(s[k - 1].id < s[k].id);
    }
}

pub proof fn lemma_sample_count_absent(s: Seq<SampleView>, version: i64, g: Seq<char>)
    requires
        forall|j: int| 0 <= j < s.len() && (#[trigger] s[j]).version == version ==> s[j].gesture != g,
    ensures
        sample_count(s, version, g) == 0,
    decreases s.len(),
{
    if s.len() > 0 {
        let t = s.drop_last();
        assert forall|j: int| 0 <= j < t.len() && (#[trigger] t[j]).version == version implies t[j].gesture != g by {
            assert(s[j] == t[j]);
        }
        lemma_sample_count_absent(t, version, g);
        assert(s[s.len() - 1] == s.last());
    }
}

impl Db {
    fn gesture_position(&self, id: i64) -> (r: Option<usize>)
        requires
            self.wf(),
        ensures
            match r {
                Some(k) => k < self.gestures_v().len() && self.gestures_v()[k as int].id == id
                    && gesture_with(self.gestures_v(), id) == Some(self.gestures_v()[k as int]),
                None => gesture_with(self.gestures_v(), id) is None,
            },
    {
        let mut k: usize = 0;
        while k < self.gestures.len()
            invariant
                k <= self.gestures.len(),
                self.wf(),
                forall|j: int| 0 <= j < k ==> (#[trigger] self.gestures_v()[j]).id != id,
            decreases self.gestures.len() - k,
        {
            assert(self.gestures_v()[k as int].id == self.gestures@[k as int].id);
            if self.gestures[k].id == id {
                proof { lemma_gesture_at(self.gestures_v(), k as int); }
                return Some(k);
            }
            k = k + 1;
        }
        None
    }

    fn joined_gesture(&self, k: usize) -> (r: CustomGesture)
        requires
            self.wf(),
            k < self.gestures_v().len(),
        ensures
            r@ == gesture_joined(self.gestures_v()[k as int], self.projects_v()),
    {
        let g = &self.gestures[k];
        assert(self.gestures_v()[k as int] == g@);
        let project_name = match g.project_id {
            Some(p) => match self.project_position(p) {
                Some(j) => Some(self.projects[j].name.clone()),
                None => None,
            },
            None => None,
        };
        CustomGesture {
            id: g.id,
            name: g.name.clone(),
            action: g.action.clone(),
            project_id: g.project_id,
            project_name,
        }
    }

    /// All custom gestures in the order they were created.
    pub fn custom_gestures(&self) -> (r: AppResult<Vec<CustomGesture>>)
        requires
            self.wf(),
        ensures
            r matches Ok(v) && v@.len() == self.gestures_v().len() && forall|i: int|
                0 <= i < v@.len() ==> (#[trigger] v@[i])@ == gesture_joined(self.gestures_v()[i], self.projects_v()),
    {
        let mut v: Vec<CustomGesture> = Vec::new();
        let mut k: usize = 0;
        while k < self.gestures.len()
            invariant
                k <= self.gestures.len(),
                self.wf(),
                v@.len() == k,
                forall|i: int| 0 <= i < k ==> (#[trigger] v@[i])@ == gesture_joined(self.gestures_v()[i], self.projects_v()),
            decreases self.gestures.len() - k,
        {
            v.push(self.joined_gesture(k));
            k = k + 1;
        }
        Ok(v)
    }

    /// One custom gesture.
    pub fn custom_gesture(&self, id: i64) -> (r: AppResult<Option<CustomGesture>>)
        requires
            self.wf(),
        ensures
            r matches Ok(g) && view_opt_gesture(g) == match gesture_with(self.gestures_v(), id) {
                Some(row) => Some(gesture_joined(row, self.projects_v())),
                None => None,
            },
    {
        match self.gesture_position(id) {
            Some(k) => Ok(Some(self.joined_gesture(k))),
            None => Ok(None),
        }
    }

    fn project_exists(&self, project_id: Option<i64>) -> (r: bool)
        requires
            self.wf(),
        ensures
            r == !dangling_project(self.projects_v(), project_id),
    {
        match project_id {
            Some(p) => self.project_position(p).is_some(),
            None => true,
        }
    }

    /// Creates a custom gesture; the name is trimmed and must not be empty.
    pub fn create_custom_gesture(&mut self, name: &str, action: &str, project_id: Option<i64>) -> (r: AppResult<i64>)
        requires
            old(self).wf(),
        ensures
            final(self).wf(),
            custom_gesture_created(old(self), final(self), name@, action@, project_id, res_view(r)),

    {
        let clean = trim(name);
        if clean.as_str().unicode_len() == 0 {
            return Err(AppError::key("gesture.custom_needs_name"));
        }
        if !self.project_exists(project_id) {
            return Err(db_error("FOREIGN KEY constraint failed"));
        }
        if self.next_gesture == i64::MAX {
            return Err(db_error("database or disk is full"));
        }
        let id = self.next_gesture;
        let ghost before = self.gestures_v();
        self.gestures.push(CustomGestureRow { id, name: clean, action: owned(action), project_id });
        self.next_gesture = id + 1;
        assert(self.gestures_v() =~= before.push(self.gestures@.last()@));
        Ok(id)
    }

    /// Changes a custom gesture; the name is trimmed and must not be empty.
    /// An unknown id changes nothing.
    pub fn update_custom_gesture(&mut self, id: i64, name: &str, action: &str, project_id: Option<i64>) -> (r: AppResult<()>)
        requires
            old(self).wf(),
        ensures
            final(self).wf(),
            custom_gesture_updated(old(self), final(self), id, name@, action@, project_id, res_view(r)),

    {
        let clean = trim(name);
        if clean.as_str().unicode_len() == 0 {
            return Err(AppError::key("gesture.custom_needs_name"));
        }
        let ghost before = self.gestures_v();
        let ghost target = before.map_values(|g: CustomGestureRowView| gesture_edited(g, id, clean@, action@, project_id));
        match self.gesture_position(id) {
            Some(k) => {
                if !self.project_exists(project_id) {
                    return Err(db_error("FOREIGN KEY constraint failed"));
                }
                self.gestures.set(k, CustomGestureRow { id, name: clean, action: owned(action), project_id });
                proof {
                    assert forall|j: int| 0 <= j < before.len() implies #[trigger] self.gestures_v()[j] == target[j] by {
                        if j < k {
                            assert(before[j].id < before[k as int].id);
                        } else if j > k {
                            assert(before[k as int].id < before[j].id);
                        }
                    }
                    assert(self.gestures_v() =~= target);
                }
            },
            None => {
                proof {
                    assert forall|j: int| 0 <= j < before.len() implies #[trigger] before[j] == target[j] by {
                        if before[j].id == id {
                            assert(gesture_with(before, id) is Some);
                        }
                    }
                    assert(before =~= target);
                }
            },
        }
        Ok(())
    }

    /// Keeps only the samples that satisfy `keep`; returns how many went.
    fn retain_samples(&mut self, keep: Ghost<spec_fn(SampleView) -> bool>, flags: &Vec<bool>) -> (removed: usize)
        requires
            old(self).wf(),
            flags.len() == old(self).samples_v().len(),
            forall|i: int| 0 <= i < flags.len() ==> flags[i] == keep@(#[trigger] old(self).samples_v()[i]),
        ensures
            final(self).wf(),
            final(self).samples_v() == kept(old(self).samples_v(), keep@),
            removed == old(self).samples_v().len() - kept(old(self).samples_v(), keep@).len(),
            final(self).projects_v() == old(self).projects_v(),
            final(self).entries_v() == old(self).entries_v(),
            final(self).settings_v() == old(self).settings_v(),
            final(self).gestures_v() == old(self).gestures_v(),
            final(self).next_ids() == old(self).next_ids(),
    {
        let ghost s = self.samples_v();
        let mut out: Vec<SampleRow> = Vec::new();
        let mut i: usize = 0;
        while i < self.samples.len()
            invariant
                i <= self.samples.len(),
                s == self.samples_v(),
                flags.len() == s.len(),
                forall|j: int| 0 <= j < flags.len() ==> flags[j] == keep@(#[trigger] s[j]),
                out@.map_values(|r: SampleRow| r@) == kept(s.take(i as int), keep@),
            decreases self.samples.len() - i,
        {
            assert(s.take(i + 1).drop_last() =~= s.take(i as int));
            assert(s.take(i + 1).last() == s[i as int]);
            assert(s[i as int] == self.samples@[i as int]@);
            if flags[i] {
                let ghost before = out@.map_values(|r: SampleRow| r@);
                out.push(clone_sample(&self.samples[i]));
                assert(out@.map_values(|r: SampleRow| r@) =~= before.push(s[i as int]));
            }
            i = i + 1;
        }
        assert(s.take(s.len() as int) =~= s);
        proof { lemma_kept_from(s, keep@); }
        let removed = self.samples.len() - out.len();
        self.samples = out;
        proof {
            let k = kept(s, keep@);
            assert forall|j: int| 0 <= j < self.samples@.len() implies 0 < #[trigger] self.samples@[j].id < self.next_sample by {
                assert(self.samples@[j]@ == k[j]);
                assert(s.contains(k[j]));
                let m = choose|m: int| 0 <= m < s.len() && s[m] == k[j];
                assert(s[m] == old(self).samples@[m]@);
            }
        }
        removed
    }

    /// Deletes a custom gesture together with its samples: a gesture without
    /// samples would do nothing, and samples without a gesture are litter.
    pub fn delete_custom_gesture(&mut self, id: i64) -> (r: AppResult<()>)
        requires
            old(self).wf(),
        ensures
            final(self).wf(),
            custom_gesture_deleted(old(self), final(self), id, res_view(r)),

    {
        let key = crate::state::custom_sample_key(id);
        let ghost keep = |s: SampleView| not_sample_of(id, s);
        let mut flags: Vec<bool> = Vec::new();
        let mut i: usize = 0;
        while i < self.samples.len()
            invariant
                i <= self.samples.len(),
                *self == *old(self),
                key@ == crate::state::custom_key(id),
                flags.len() == i,
                forall|j: int| 0 <= j < i ==> flags[j] == not_sample_of(id, #[trigger] self.samples_v()[j]),
            decreases self.samples.len() - i,
        {
            assert(self.samples_v()[i as int] == self.samples@[i as int]@);
            flags.push(!crate::text::str_eq(self.samples[i].gesture.as_str(), key.as_str()));
            i = i + 1;
        }
        self.retain_samples(Ghost(keep), &flags);
        let ghost before = self.gestures_v();
        match self.gesture_position(id) {
            Some(k) => {
                self.gestures.remove(k);
                proof {
                    assert(self.gestures_v() =~= before.remove(k as int));
                    assert forall|m: int| 0 <= m < before.len() && before[m].id == id implies m == k by {
                        if m < k {
                            assert(before[m].id < before[k as int].id);
                        } else if m > k {
                            assert(before[k as int].id < before[m].id);
                        }
                    }
                    assert forall|a: int, b: int| #![trigger self.gestures_v()[a], self.gestures_v()[b]] 0 <= a < b < self.gestures_v().len() implies self.gestures_v()[a].id < self.gestures_v()[b].id by {
                        let a0 = if a < k { a } else { a + 1 };
                        let b0 = if b < k { b } else { b + 1 };
                        assert(before[a0].id < before[b0].id);
                    }
                }
            },
            None => {},
        }
        Ok(())
    }

    /// Stores several samples of one gesture at once; each feature vector is
    /// given as JSON text. Nothing is stored when the ids would run out.
    pub fn add_gesture_samples(&mut self, gesture: &str, version: i64, features: &Vec<String>) -> (r: AppResult<usize>)
        requires
            old(self).wf(),
        ensures
            final(self).wf(),
            samples_added(old(self), final(self), gesture@, version, features.deep_view(), res_view(r)),

    {
        if features.len() as u64 > (i64::MAX - self.next_sample) as u64 {
            return Err(db_error("database or disk is full"));
        }
        let ghost s = self.samples_v();
        let ghost first = self.next_sample;
        let mut i: usize = 0;
        while i < features.len()
            invariant
                i <= features.len(),
                first as int + features.len() <= i64::MAX,
                self.next_sample == first + i,
                self.wf(),
                self.samples_v().len() == s.len() + i,
                self.samples_v().take(s.len() as int) == s,
                forall|j: int| 0 <= j < i ==> #[trigger] self.samples_v()[s.len() + j] == sample_view((first + j) as i64, gesture@, version, features@[j]@),
                same_except_gestures(old(self), self),
                self.gestures_v() == old(self).gestures_v(),
                self.next_ids().2 == old(self).next_ids().2,
            decreases features.len() - i,
        {
            let ghost before = self.samples_v();
            let id = self.next_sample;
            self.samples.push(SampleRow { id, gesture: owned(gesture), version, features: features[i].clone() });
            self.next_sample = id + 1;
            assert(self.samples_v() =~= before.push(SampleView { id, gesture: gesture@, version, features: features@[i as int]@ }));
            assert(self.samples_v().take(s.len() as int) =~= before.take(s.len() as int));
            i = i + 1;
        }
        Ok(features.len())
    }

    /// The samples of one feature-set version, in the order they were taken.
    pub fn gesture_samples(&self, version: i64) -> (r: AppResult<Vec<GestureSample>>)
        requires
            self.wf(),
        ensures
            r matches Ok(v) && v@.map_values(|g: GestureSample| (g.gesture@, g.features@)) == samples_of_version(self.samples_v(), version),
    {
        let ghost s = self.samples_v();
        let mut v: Vec<GestureSample> = Vec::new();
        let mut i: usize = 0;
        while i < self.samples.len()
            invariant
                i <= self.samples.len(),
                s == self.samples_v(),
                v@.map_values(|g: GestureSample| (g.gesture@, g.features@)) == samples_of_version(s.take(i as int), version),
            decreases self.samples.len() - i,
        {
            assert(s.take(i + 1).drop_last() =~= s.take(i as int));
            assert(s.take(i + 1).last() == s[i as int]);
            assert(s[i as int] == self.samples@[i as int]@);
            if self.samples[i].version == version {
                let ghost before = v@.map_values(|g: GestureSample| (g.gesture@, g.features@));
                v.push(GestureSample { gesture: self.samples[i].gesture.clone(), features: self.samples[i].features.clone() });
                assert(v@.map_values(|g: GestureSample| (g.gesture@, g.features@)) =~= before.push((s[i as int].gesture, s[i as int].features)));
            }
            i = i + 1;
        }
        assert(s.take(s.len() as int) =~= s);
        Ok(v)
    }

    /// Deletes the samples of one gesture, or all samples when none is named;
    /// returns how many went.
    pub fn clear_gesture_samples(&mut self, gesture: Option<&str>) -> (r: AppResult<usize>)
        requires
            old(self).wf(),
        ensures
            final(self).wf(),
            samples_cleared(old(self), final(self), opt_str(gesture), res_view(r)),

    {
        let ghost keep = |s: SampleView| survives_clear(opt_str(gesture), s);
        let mut flags: Vec<bool> = Vec::new();
        let mut i: usize = 0;
        while i < self.samples.len()
            invariant
                i <= self.samples.len(),
                flags.len() == i,
                *self == *old(self),
                forall|j: int| 0 <= j < i ==> flags[j] == survives_clear(opt_str(gesture), #[trigger] self.samples_v()[j]),
            decreases self.samples.len() - i,
        {
            assert(self.samples_v()[i as int] == self.samples@[i as int]@);
            let flag = match gesture {
                Some(g) => !crate::text::str_eq(self.samples[i].gesture.as_str(), g),
                None => false,
            };
            flags.push(flag);
            i = i + 1;
        }
        Ok(self.retain_samples(Ghost(keep), &flags))
    }

    /// Removes samples of gestures that no longer exist: keys outside `known`
    /// that belong to no custom gesture either. Returns how many went.
    pub fn prune_gesture_samples(&mut self, known: &[&str]) -> (r: AppResult<usize>)
        requires
            old(self).wf(),
        ensures
            final(self).wf(),
            r matches Ok(n) && n == old(self).samples_v().len() - final(self).samples_v().len(),
            final(self).samples_v() == kept(
                old(self).samples_v(),
                |s: SampleView| survives_prune(known@.map_values(|k: &str| k@), old(self).gestures_v(), s),
            ),
            final(self).next_ids() == old(self).next_ids(),
            same_except_gestures(old(self), final(self)),
            final(self).gestures_v() == old(self).gestures_v(),
    {
        let ghost gs = self.gestures_v();
        let ghost kn = known@.map_values(|k: &str| k@);
        let ghost keep = |s: SampleView| survives_prune(kn, gs, s);
        let mut custom_keys: Vec<String> = Vec::new();
        let mut g: usize = 0;
        while g < self.gestures.len()
            invariant
                g <= self.gestures.len(),
                gs == self.gestures_v(),
                custom_keys.len() == g,
                forall|j: int| 0 <= j < g ==> (#[trigger] custom_keys@[j])@ == crate::state::custom_key(gs[j].id),
            decreases self.gestures.len() - g,
        {
            assert(gs[g as int].id == self.gestures@[g as int].id);
            custom_keys.push(crate::state::custom_sample_key(self.gestures[g].id));
            g = g + 1;
        }
        let mut flags: Vec<bool> = Vec::new();
        let mut i: usize = 0;
        while i < self.samples.len()
            invariant
                i <= self.samples.len(),
                flags.len() == i,
                gs == self.gestures_v(),
                *self == *old(self),
                kn == known@.map_values(|k: &str| k@),
                custom_keys.len() == gs.len(),
                forall|j: int| 0 <= j < gs.len() ==> (#[trigger] custom_keys@[j])@ == crate::state::custom_key(gs[j].id),
                forall|j: int| 0 <= j < i ==> flags[j] == survives_prune(kn, gs, #[trigger] self.samples_v()[j]),
            decreases self.samples.len() - i,
        {
            let sample = &self.samples[i];
            assert(self.samples_v()[i as int] == sample@);
            let mut found = false;
            let mut a: usize = 0;
            while a < known.len() && !found
                invariant
                    a <= known.len(),
                    found ==> exists|m: int| 0 <= m < known@.len() && known@[m]@ == sample.gesture@,
                    !found ==> forall|m: int| 0 <= m < a ==> known@[m]@ != sample.gesture@,
                decreases known.len() - a + if found { 0int } else { 1int },
            {
                if crate::text::str_eq(known[a], sample.gesture.as_str()) {
                    found = true;
                } else {
                    a = a + 1;
                }
            }
            proof {
                if found {
                    let m = choose|m: int| 0 <= m < known@.len() && known@[m]@ == sample.gesture@;
                    assert(kn[m] == sample.gesture@);
                }
            }
            let mut b: usize = 0;
            while b < custom_keys.len() && !found
                invariant
                    b <= custom_keys.len(),
                    custom_keys.len() == gs.len(),
                    forall|j: int| 0 <= j < gs.len() ==> (#[trigger] custom_keys@[j])@ == crate::state::custom_key(gs[j].id),
                    kn == known@.map_values(|k: &str| k@),
                    found ==> survives_prune(kn, gs, sample@),
                    !found ==> forall|m: int| 0 <= m < known@.len() ==> known@[m]@ != sample.gesture@,
                    !found ==> forall|m: int| 0 <= m < b ==> crate::state::custom_key(gs[m].id) != sample.gesture@,
                decreases custom_keys.len() - b + if found { 0int } else { 1int },
            {
                if crate::text::str_eq(custom_keys[b].as_str(), sample.gesture.as_str()) {
                    found = true;
                } else {
                    b = b + 1;
                }
            }
            proof {
                if !found {
                    assert forall|m: int| 0 <= m < kn.len() implies kn[m] != sample.gesture@ by {
                        assert(kn[m] == known@[m]@);
                    }
                }
            }
            flags.push(found);
            i = i + 1;
        }
        Ok(self.retain_samples(Ghost(keep), &flags))
    }

    /// Number of samples per gesture for one feature-set version, ordered by
    /// gesture key.
    pub fn gesture_sample_counts(&self, version: i64) -> (r: AppResult<Vec<(String, i64)>>)
        requires
            self.wf(),
        ensures
            r matches Ok(v) && is_count_table(v@.map_values(|p: (String, i64)| (p.0@, p.1)), self.samples_v(), version),
    {
        let ghost s = self.samples_v();
        let mut table: Vec<GestureCount> = Vec::new();
        let mut i: usize = 0;
        while i < self.samples.len()
            invariant
                i <= self.samples.len(),
                self.wf(),
                s == self.samples_v(),
                forall|a: int| 0 <= a < table.len() ==> (#[trigger] table@[a]).count == sample_count(s.take(i as int), version, table@[a].gesture@)
                    && table@[a].count > 0,
                forall|j: int| 0 <= j < i && (#[trigger] s[j]).version == version ==> exists|a: int| 0 <= a < table.len() && table@[a].gesture@ == s[j].gesture,
                forall|a: int, b: int| #![trigger table@[a], table@[b]] 0 <= a < table.len() && 0 <= b < table.len() && table@[a].gesture@ == table@[b].gesture@ ==> a == b,
            decreases self.samples.len() - i,
        {
            let ghost t = s.take(i as int);
            assert(s.take(i + 1).drop_last() =~= t);
            assert(s.take(i + 1).last() == s[i as int]);
            assert(s[i as int] == self.samples@[i as int]@);
            proof { lemma_sample_count_bound(t, version); }
            if self.samples[i].version == version {
                let g = crate::text::chars_of(self.samples[i].gesture.as_str());
                let mut a: usize = 0;
                while a < table.len() && !crate::order::vec_eq(&table[a].gesture, &g)
                    invariant
                        a <= table.len(),
                        forall|m: int| 0 <= m < a ==> (#[trigger] table@[m]).gesture@ != g@,
                    decreases table.len() - a,
                {
                    a = a + 1;
                }
                let ghost before = table@;
                if a < table.len() {
                    let c = table[a].count;
                    proof {
                        assert(c <= i);
                        assert(s[i as int] == self.samples@[i as int]@);
                        assert forall|j: int| 0 <= j < s.len() implies (#[trigger] s[j]).id > 0 by {
                            assert(s[j] == self.samples@[j]@);
                        }
                        lemma_sample_ids_from_one(s, i as int);
                        assert(self.samples@[i as int].id < self.next_sample);
                    }
                    let entry = GestureCount { gesture: g, count: c + 1 };
                    table.set(a, entry);
                    assert forall|m: int| 0 <= m < table.len() implies (#[trigger] table@[m]).count == sample_count(s.take(i + 1), version, table@[m].gesture@)
                        && table@[m].count > 0 by {
                        if m != a {
                            assert(table@[m] == before[m]);
                        }
                    }
                    assert forall|j: int| 0 <= j < i + 1 && (#[trigger] s[j]).version == version implies exists|m: int| 0 <= m < table.len() && table@[m].gesture@ == s[j].gesture by {
                        if j < i {
                            let m = choose|m: int| 0 <= m < before.len() && before[m].gesture@ == s[j].gesture;
                            assert(table@[m].gesture@ == before[m].gesture@);
                        } else {
                            assert(table@[a as int].gesture@ == s[j].gesture);
                        }
                    }
                } else {
                    table.push(GestureCount { gesture: g, count: 1 });
                    assert forall|m: int| 0 <= m < table.len() implies (#[trigger] table@[m]).count == sample_count(s.take(i + 1), version, table@[m].gesture@)
                        && table@[m].count > 0 by {
                        if m < before.len() {
                            assert(table@[m] == before[m]);
                        } else {
                            lemma_sample_count_absent(t, version, g@);
                        }
                    }
                    assert forall|j: int| 0 <= j < i + 1 && (#[trigger] s[j]).version == version implies exists|m: int| 0 <= m < table.len() && table@[m].gesture@ == s[j].gesture by {
                        if j < i {
                            let m = choose|m: int| 0 <= m < before.len() && before[m].gesture@ == s[j].gesture;
                            assert(table@[m] == before[m]);
                        } else {
                            assert(table@[before.len() as int].gesture@ == s[j].gesture);
                        }
                    }
                }
            } else {
                assert forall|m: int| 0 <= m < table.len() implies (#[trigger] table@[m]).count == sample_count(s.take(i + 1), version, table@[m].gesture@) by {
                }
            }
            i = i + 1;
        }
        assert(s.take(s.len() as int) =~= s);
        let ghost unsorted = table@;
        proof {
            assert(unsorted.no_duplicates()) by {
                assert forall|a: int, b: int| 0 <= a < unsorted.len() && 0 <= b < unsorted.len() && a != b implies unsorted[a] != unsorted[b] by {
                    if unsorted[a] == unsorted[b] {
                        assert(unsorted[a].gesture@ == unsorted[b].gesture@);
                    }
                }
            }
            unsorted.lemma_multiset_has_no_duplicates();
        }
        let sorted = crate::order::sort_ranked(table);
        proof {
            assert forall|x: GestureCount| sorted@.to_multiset().contains(x) implies sorted@.to_multiset().count(x) == 1 by {
            }
            sorted@.lemma_multiset_has_no_duplicates_conv();
        }
        let mut out: Vec<(String, i64)> = Vec::new();
        let mut k: usize = 0;
        while k < sorted.len()
            invariant
                k <= sorted.len(),
                out@.map_values(|p: (String, i64)| (p.0@, p.1)) == sorted@.take(k as int).map_values(|c: GestureCount| (c.gesture@, c.count)),
            decreases sorted.len() - k,
        {
            let ghost before = out@.map_values(|p: (String, i64)| (p.0@, p.1));
            out.push((crate::text::string_of(&sorted[k].gesture), sorted[k].count));
            assert(out@.map_values(|p: (String, i64)| (p.0@, p.1)) =~= before.push((sorted@[k as int].gesture@, sorted@[k as int].count)));
            assert(sorted@.take(k + 1).map_values(|c: GestureCount| (c.gesture@, c.count)) =~= sorted@.take(k as int).map_values(|c: GestureCount| (c.gesture@, c.count)).push((sorted@[k as int].gesture@, sorted@[k as int].count)));
            k = k + 1;
        }
        assert(sorted@.take(sorted.len() as int) =~= sorted@);
        proof {
            let r = out@.map_values(|p: (String, i64)| (p.0@, p.1));
            assert forall|x: int| 0 <= x < sorted@.len() implies unsorted.contains(#[trigger] sorted@[x]) by {
                assert(sorted@.to_multiset().count(sorted@[x]) > 0);
            }
            assert forall|i: int| 0 <= i < r.len() implies (#[trigger] r[i]).1 == sample_count(s, version, r[i].0) && r[i].1 > 0 by {
                assert(unsorted.contains(sorted@[i]));
            }
            assert forall|j: int| 0 <= j < s.len() && (#[trigger] s[j]).version == version implies exists|i: int| 0 <= i < r.len() && r[i].0 == s[j].gesture by {
                let a = choose|a: int| 0 <= a < unsorted.len() && unsorted[a].gesture@ == s[j].gesture;
                assert(unsorted.to_multiset().count(unsorted[a]) > 0);
                assert(sorted@.contains(unsorted[a]));
                let i = choose|i: int| 0 <= i < sorted@.len() && sorted@[i] == unsorted[a];
                assert(r[i].0 == s[j].gesture);
            }
            assert forall|i: int, k: int| #![trigger r[i], r[k]] 0 <= i < k < r.len() implies crate::order::text_le(r[i].0, r[k].0) && r[i].0 != r[k].0 by {
                assert(sorted@[i].precedes(&sorted@[k]));
                assert(sorted@[i] != sorted@[k]);
                assert(unsorted.contains(sorted@[i]));
                assert(unsorted.contains(sorted@[k]));
                let a = choose|a: int| 0 <= a < unsorted.len() && unsorted[a] == sorted@[i];
                let b = choose|b: int| 0 <= b < unsorted.len() && unsorted[b] == sorted@[k];
            }
        }
        Ok(out)
    }
}


// ---------- listings ----------

/// Index of the first NUL character at or after `i`, or the length.
pub open spec fn first_nul(s: Seq<char>, i: int) -> int
    decreases s.len() - i,
{
    if i < 0 || i >= s.len() || s[i] == '\0' {
        i
    } else {
        first_nul(s, i + 1)
    }
}

/// The text as SQLite's date functions see it: up to the first NUL.
pub open spec fn c_text(s: Seq<char>) -> Seq<char> {
    s.take(first_nul(s, 0))
}

/// Does SQLite read the text as the current time? `now`, `subsec` and
/// `subsecond`, in any ASCII letter case, do.
pub open spec fn reads_clock(s: Seq<char>) -> bool {
    let w = lower_ascii_text(c_text(s));
    w == "now"@ || w == "subsec"@ || w == "subsecond"@
}

/// What SQLite's `date(s)` gives for a text that it does not read as the
/// current time: the calendar day as `YYYY-MM-DD`, or `None` (SQL `NULL`)
/// when it reads no time from it.
pub uninterp spec fn sqlite_day(s: Seq<char>) -> Option<Seq<char>>;

/// The calendar day of a stored or entered time stamp: SQLite's `date(s)`.
/// A text that SQLite would read as the current time names no day here, so
/// that a listing never depends on when it is made.
pub open spec fn sql_date(s: Seq<char>) -> Option<Seq<char>> {
    if reads_clock(s) {
        None
    } else {
        sqlite_day(s)
    }
}

/// Runs SQLite's `date(?1)` on the text.
///
/// Wraps rusqlite: an in-memory connection and `SELECT date(?1)`. For a text
/// that SQLite does not read as the current time the result depends on the
/// text alone and is named `sqlite_day`. The connection fails only when
/// SQLite cannot allocate memory, which stops the process here as every
/// failed allocation does.
#[verifier::external_body]
fn sqlite_date(text: &str) -> (r: Option<String>)
    requires
        !reads_clock(text@),
    ensures
        opt_text(r) == sqlite_day(text@),
{
    let conn = rusqlite::Connection::open_in_memory().expect("SQLite could not allocate memory");
    conn.query_row("SELECT date(?1)", [text], |row| row.get::<_, Option<String>>(0)).expect("SQLite could not allocate memory")
}

/// Does SQLite read the text as the current time?
fn is_clock_word(text: &str) -> (r: bool)
    ensures
        r == reads_clock(text@),
{
    let s = crate::text::chars_of(text);
    let mut i: usize = 0;
    while i < s.len() && s[i] != '\0'
        invariant
            i <= s.len(),
            first_nul(s@, 0) == first_nul(s@, i as int),
        decreases s.len() - i,
    {
        i = i + 1;
    }
    let mut prefix: Vec<char> = Vec::new();
    let mut k: usize = 0;
    while k < i
        invariant
            k <= i <= s.len(),
            prefix@ == s@.take(k as int),
        decreases i - k,
    {
        prefix.push(s[k]);
        k = k + 1;
        assert(prefix@ =~= s@.take(k as int));
    }
    let w = crate::text::to_ascii_lowercase(crate::text::string_of(&prefix).as_str());
    crate::text::str_eq(w.as_str(), "now") || crate::text::str_eq(w.as_str(), "subsec") || crate::text::str_eq(
        w.as_str(),
        "subsecond",
    )
}

/// The calendar day of a time stamp as characters.
pub fn sql_date_exec(text: &str) -> (r: Option<Vec<char>>)
    ensures
        match r {
            Some(d) => sql_date(text@) == Some(d@),
            None => sql_date(text@) is None,
        },
{
    if is_clock_word(text) {
        return None;
    }
    match sqlite_date(text) {
        Some(d) => Some(crate::text::chars_of(d.as_str())),
        None => None,
    }
}

/// Order of the project list: active ones first, then by name ignoring
/// ASCII case (`COLLATE NOCASE`), then by id.
pub open spec fn project_before(a: ProjectView, b: ProjectView) -> bool {
    if a.active != b.active {
        a.active
    } else if crate::text::lower_ascii_text(a.name) != crate::text::lower_ascii_text(b.name) {
        crate::order::text_le(crate::text::lower_ascii_text(a.name), crate::text::lower_ascii_text(b.name))
    } else {
        a.id <= b.id
    }
}

impl Ranked for Project {
    open spec fn precedes(&self, other: &Self) -> bool {
        project_before(self@, other@)
    }

    proof fn lemma_total(a: &Self, b: &Self) {
        crate::order::lemma_text_le_total(crate::text::lower_ascii_text(a.name@), crate::text::lower_ascii_text(b.name@));
    }

    proof fn lemma_trans(a: &Self, b: &Self, c: &Self) {
        let la = crate::text::lower_ascii_text(a.name@);
        let lb = crate::text::lower_ascii_text(b.name@);
        let lc = crate::text::lower_ascii_text(c.name@);
        if a.active == b.active && b.active == c.active {
            if la != lb && lb != lc {
                crate::order::lemma_text_le_trans(la, lb, lc);
                if la == lc {
                    crate::order::lemma_text_le_antisym(la, lb);
                }
            }
        }
    }

    fn precedes_exec(&self, other: &Self) -> (r: bool) {
        if self.active != other.active {
            return self.active;
        }
        let a = crate::text::chars_of(crate::text::to_ascii_lowercase(self.name.as_str()).as_str());
        let b = crate::text::chars_of(crate::text::to_ascii_lowercase(other.name.as_str()).as_str());
        if !crate::order::vec_eq(&a, &b) {
            crate::order::text_le_exec(&a, &b)
        } else {
            self.id <= other.id
        }
    }
}

/// Order of the entry list: latest start first, then highest id.
pub open spec fn entry_before(a: TimeEntryView, b: TimeEntryView) -> bool {
    if a.start_ts != b.start_ts {
        crate::order::text_le(b.start_ts, a.start_ts)
    } else {
        a.id >= b.id
    }
}

impl Ranked for TimeEntry {
    open spec fn precedes(&self, other: &Self) -> bool {
        entry_before(self@, other@)
    }

    proof fn lemma_total(a: &Self, b: &Self) {
        crate::order::lemma_text_le_total(a.start_ts@, b.start_ts@);
    }

    proof fn lemma_trans(a: &Self, b: &Self, c: &Self) {
        let (sa, sb, sc) = (a.start_ts@, b.start_ts@, c.start_ts@);
        if sa != sb && sb != sc {
            crate::order::lemma_text_le_trans(sc, sb, sa);
            if sa == sc {
                crate::order::lemma_text_le_antisym(sb, sa);
            }
        }
    }

    fn precedes_exec(&self, other: &Self) -> (r: bool) {
        let a = crate::text::chars_of(self.start_ts.as_str());
        let b = crate::text::chars_of(other.start_ts.as_str());
        if !crate::order::vec_eq(&a, &b) {
            crate::order::text_le_exec(&b, &a)
        } else {
            self.id >= other.id
        }
    }
}

/// The projects a listing shows: all of them, or the active ones.
pub open spec fn project_selection(rows: Seq<ProjectView>, only_active: bool) -> Seq<ProjectView> {
    rows.filter(|p: ProjectView| !only_active || p.active)
}

/// `r` holds exactly the selected projects, in listing order.
pub open spec fn is_project_listing(r: Seq<ProjectView>, rows: Seq<ProjectView>, only_active: bool) -> bool {
    &&& r.to_multiset() == project_selection(rows, only_active).to_multiset()
    &&& forall|i: int, k: int| #![trigger r[i], r[k]] 0 <= i < k < r.len() ==> project_before(r[i], r[k])
}

/// Does an entry fall into the period and, if one is named, the project?
pub open spec fn entry_in_period(e: EntryView, from: Seq<char>, to: Seq<char>, project_id: Option<i64>) -> bool {
    &&& match (sql_date(e.start_ts), sql_date(from), sql_date(to)) {
        (Some(d), Some(f), Some(t)) => crate::order::text_le(f, d) && crate::order::text_le(d, t),
        _ => false,
    }
    &&& (project_id is None || e.project_id == project_id)
}

/// The entries of a period, joined with their project names.
pub open spec fn entry_selection(
    rows: Seq<EntryView>,
    projects: Seq<ProjectView>,
    from: Seq<char>,
    to: Seq<char>,
    project_id: Option<i64>,
) -> Seq<TimeEntryView> {
    rows.filter(|e: EntryView| entry_in_period(e, from, to, project_id)).map_values(|e: EntryView| joined(e, projects))
}

/// `r` holds exactly the selected entries, latest first.
pub open spec fn is_entry_listing(
    r: Seq<TimeEntryView>,
    rows: Seq<EntryView>,
    projects: Seq<ProjectView>,
    from: Seq<char>,
    to: Seq<char>,
    project_id: Option<i64>,
) -> bool {
    &&& r.to_multiset() == entry_selection(rows, projects, from, to, project_id).to_multiset()
    &&& forall|i: int, k: int| #![trigger r[i], r[k]] 0 <= i < k < r.len() ==> entry_before(r[i], r[k])
}

impl Db {
    /// All projects, or the active ones: active first, then by name ignoring
    /// case.
    pub fn projects(&self, only_active: bool) -> (r: AppResult<Vec<Project>>)
        requires
            self.wf(),
        ensures
            r matches Ok(v) && is_project_listing(v@.map_values(|p: Project| p@), self.projects_v(), only_active),
    {
        let ghost rows = self.projects_v();
        let ghost pred = |p: ProjectView| !only_active || p.active;
        let ghost view = |p: Project| p@;
        let mut picked: Vec<Project> = Vec::new();
        let mut i: usize = 0;
        assert(picked@.map_values(view) =~= rows.take(0).filter(pred)) by {
            reveal(Seq::filter);
        }
        while i < self.projects.len()
            invariant
                i <= self.projects.len(),
                rows == self.projects_v(),
                rows.len() == self.projects.len(),
                pred == (|p: ProjectView| !only_active || p.active),
                view == (|p: Project| p@),
                picked@.map_values(view) == rows.take(i as int).filter(pred),
            decreases self.projects.len() - i,
        {
            proof {
                assert(rows.take(i + 1) =~= rows.take(i as int).push(rows[i as int]));
                crate::order::lemma_filter_push(rows.take(i as int), rows[i as int], pred);
                assert(rows[i as int] == self.projects@[i as int]@);
            }
            if !only_active || self.projects[i].active {
                let ghost before = picked@;
                picked.push(self.projects[i].clone());
                assert(picked@.map_values(view) =~= before.map_values(view).push(rows[i as int]));
            }
            i = i + 1;
        }
        assert(rows.take(rows.len() as int) =~= rows);
        let ghost unsorted = picked@;
        let sorted = crate::order::sort_ranked(picked);
        proof {
            crate::order::lemma_map_multiset(sorted@, unsorted, view);
            let r = sorted@.map_values(view);
            assert forall|a: int, b: int| #![trigger r[a], r[b]] 0 <= a < b < r.len() implies project_before(r[a], r[b]) by {
                assert(sorted@[a].precedes(&sorted@[b]));
            }
        }
        Ok(sorted)
    }

    /// The entries that started within the period (inclusive, compared by
    /// calendar day), optionally of one project, latest first.
    pub fn entries_between(&self, from: &str, to: &str, project_id: Option<i64>) -> (r: AppResult<Vec<TimeEntry>>)
        requires
            self.wf(),
        ensures
            r matches Ok(v) && is_entry_listing(
                v@.map_values(|e: TimeEntry| e@),
                self.entries_v(),
                self.projects_v(),
                from@,
                to@,
                project_id,
            ),
    {
        let ghost rows = self.entries_v();
        let ghost projects = self.projects_v();
        let ghost pred = |e: EntryView| entry_in_period(e, from@, to@, project_id);
        let ghost join = |e: EntryView| joined(e, projects);
        let ghost view = |e: TimeEntry| e@;
        let from_day = sql_date_exec(from);
        let to_day = sql_date_exec(to);
        let mut picked: Vec<TimeEntry> = Vec::new();
        let mut i: usize = 0;
        assert(picked@.map_values(view) =~= rows.take(0).filter(pred).map_values(join)) by {
            reveal(Seq::filter);
        }
        while i < self.entries.len()
            invariant
                i <= self.entries.len(),
                self.wf(),
                rows == self.entries_v(),
                rows.len() == self.entries.len(),
                projects == self.projects_v(),
                pred == (|e: EntryView| entry_in_period(e, from@, to@, project_id)),
                join == (|e: EntryView| joined(e, projects)),
                view == (|e: TimeEntry| e@),
                match from_day {
                    Some(d) => sql_date(from@) == Some(d@),
                    None => sql_date(from@) is None,
                },
                match to_day {
                    Some(d) => sql_date(to@) == Some(d@),
                    None => sql_date(to@) is None,
                },
                picked@.map_values(view) == rows.take(i as int).filter(pred).map_values(join),
            decreases self.entries.len() - i,
        {
            proof {
                assert(rows.take(i + 1) =~= rows.take(i as int).push(rows[i as int]));
                crate::order::lemma_filter_push(rows.take(i as int), rows[i as int], pred);
                assert(rows[i as int] == self.entries@[i as int]@);
            }
            let day = sql_date_exec(self.entries[i].start_ts.as_str());
            let in_days = match (&day, &from_day, &to_day) {
                (Some(d), Some(f), Some(t)) => crate::order::text_le_exec(f, d) && crate::order::text_le_exec(d, t),
                _ => false,
            };
            let in_project = match project_id {
                None => true,
                Some(p) => self.entries[i].project_id == Some(p),
            };
            assert(in_days && in_project <==> pred(rows[i as int]));
            if in_days && in_project {
                let ghost before = picked@;
                let e = self.joined_entry(i);
                picked.push(e);
                assert(picked@.map_values(view) =~= before.map_values(view).push(join(rows[i as int])));
                assert(rows.take(i + 1).filter(pred).map_values(join) =~= rows.take(i as int).filter(pred).map_values(join).push(
                    join(rows[i as int]),
                ));
            }
            i = i + 1;
        }
        assert(rows.take(rows.len() as int) =~= rows);
        let ghost unsorted = picked@;
        let sorted = crate::order::sort_ranked(picked);
        proof {
            crate::order::lemma_map_multiset(sorted@, unsorted, view);
            let r = sorted@.map_values(view);
            assert forall|a: int, b: int| #![trigger r[a], r[b]] 0 <= a < b < r.len() implies entry_before(r[a], r[b]) by {
                assert(sorted@[a].precedes(&sorted@[b]));
            }
        }
        Ok(sorted)
    }
}

} // verus!
