//! The tables as plain rows: how the database is loaded from storage and
//! read back for storing.

use vstd::prelude::*;

use super::{
    keys_unique, CustomGestureRow, CustomGestureRowView, Db, EntryRow, EntryView, Project, ProjectView, SampleRow,
    SampleView,
};
use crate::text::str_eq;

verus! {

/// Ids strictly increase and lie between 1 and the next id to hand out.
pub open spec fn ids_valid(ids: Seq<i64>, next: i64) -> bool {
    &&& forall|i: int, j: int| #![trigger ids[i], ids[j]] 0 <= i < j < ids.len() ==> ids[i] < ids[j]
    &&& forall|i: int| 0 <= i < ids.len() ==> 0 < #[trigger] ids[i] < next
    &&& next >= 1
}

/// The stored rows of every table, with the next id of each.
pub struct Tables {
    pub projects: Vec<Project>,
    pub entries: Vec<EntryRow>,
    pub settings: Vec<(String, String)>,
    pub gestures: Vec<CustomGestureRow>,
    pub samples: Vec<SampleRow>,
    pub next_project: i64,
    pub next_entry: i64,
    pub next_gesture: i64,
    pub next_sample: i64,
}

impl Tables {
    pub open spec fn project_views(&self) -> Seq<ProjectView> {
        self.projects@.map_values(|p: Project| p@)
    }

    pub open spec fn entry_views(&self) -> Seq<EntryView> {
        self.entries@.map_values(|e: EntryRow| e@)
    }

    pub open spec fn gesture_views(&self) -> Seq<CustomGestureRowView> {
        self.gestures@.map_values(|g: CustomGestureRow| g@)
    }

    pub open spec fn sample_views(&self) -> Seq<SampleView> {
        self.samples@.map_values(|s: SampleRow| s@)
    }

    /// Rows a database can be made of: ids increase within each table and
    /// stay below the next id; no setting key occurs twice.
    pub open spec fn valid(&self) -> bool {
        &&& ids_valid(self.project_views().map_values(|p: ProjectView| p.id), self.next_project)
        &&& ids_valid(self.entry_views().map_values(|e: EntryView| e.id), self.next_entry)
        &&& ids_valid(self.gesture_views().map_values(|g: CustomGestureRowView| g.id), self.next_gesture)
        &&& ids_valid(self.sample_views().map_values(|s: SampleView| s.id), self.next_sample)
        &&& keys_unique(self.settings.deep_view())
    }
}

/// Checks `ids_valid`.
fn check_ids(ids: &Vec<i64>, next: i64) -> (r: bool)
    ensures
        r == ids_valid(ids@, next),
{
    if next < 1 {
        return false;
    }
    let mut i: usize = 0;
    while i < ids.len()
        invariant
            i <= ids.len(),
            next >= 1,
            forall|a: int, b: int| #![trigger ids@[a], ids@[b]] 0 <= a < b < i ==> ids@[a] < ids@[b],
            forall|a: int| 0 <= a < i ==> 0 < #[trigger] ids@[a] < next,
        decreases ids.len() - i,
    {
        if ids[i] <= 0 || ids[i] >= next {
            return false;
        }
        if i > 0 && ids[i - 1] >= ids[i] {
            return false;
        }
        assert forall|a: int, b: int| #![trigger ids@[a], ids@[b]] 0 <= a < b < i + 1 implies ids@[a] < ids@[b] by {
            if b == i && a < i - 1 {
                assert(ids@[a] < ids@[i - 1]);
            }
        }
        i = i + 1;
    }
    true
}

/// Checks `keys_unique`.
fn check_keys(settings: &Vec<(String, String)>) -> (r: bool)
    ensures
        r == keys_unique(settings.deep_view()),
{
    let ghost s = settings.deep_view();
    let mut i: usize = 0;
    while i < settings.len()
        invariant
            i <= settings.len(),
            s == settings.deep_view(),
            s.len() == settings.len(),
            forall|a: int, b: int| #![trigger s[a], s[b]] 0 <= a < i && 0 <= b < s.len() && s[a].0 == s[b].0 ==> a == b,
        decreases settings.len() - i,
    {
        let mut j: usize = 0;
        while j < settings.len()
            invariant
                i < settings.len(),
                j <= settings.len(),
                s == settings.deep_view(),
                s.len() == settings.len(),
                forall|b: int| #![trigger s[b]] 0 <= b < j && s[i as int].0 == s[b].0 ==> b == i,
            decreases settings.len() - j,
        {
            assert(s[i as int].0 == settings@[i as int].0@ && s[j as int].0 == settings@[j as int].0@);
            if j != i && str_eq(settings[i].0.as_str(), settings[j].0.as_str()) {
                assert(!keys_unique(s)) by {
                    assert(s[i as int].0 == s[j as int].0);
                }
                return false;
            }
            j = j + 1;
        }
        assert forall|a: int, b: int| #![trigger s[a], s[b]] 0 <= a < i + 1 && 0 <= b < s.len() && s[a].0 == s[b].0 implies a
            == b by {
            if a == i {
                assert(s[i as int].0 == s[b].0);
            } else if b < i + 1 {
            } else {
            }
        }
        i = i + 1;
    }
    true
}

impl Db {
    /// A database of the given rows, if they are valid.
    pub fn from_tables(t: Tables) -> (r: Option<Db>)
        ensures
            r is Some <==> t.valid(),
            r matches Some(db) ==> {
                &&& db.wf()
                &&& db.projects_v() == t.project_views()
                &&& db.entries_v() == t.entry_views()
                &&& db.settings_v() == t.settings.deep_view()
                &&& db.gestures_v() == t.gesture_views()
                &&& db.samples_v() == t.sample_views()
                &&& db.next_ids() == (t.next_project, t.next_entry, t.next_gesture, t.next_sample)
            },
    {
        let mut ids: Vec<i64> = Vec::new();
        let mut i: usize = 0;
        while i < t.projects.len()
            invariant
                i <= t.projects.len(),
                ids@ == t.project_views().map_values(|p: ProjectView| p.id).take(i as int),
            decreases t.projects.len() - i,
        {
            ids.push(t.projects[i].id);
            assert(ids@ =~= t.project_views().map_values(|p: ProjectView| p.id).take(i + 1));
            i = i + 1;
        }
        assert(ids@ =~= t.project_views().map_values(|p: ProjectView| p.id));
        let projects_ok = check_ids(&ids, t.next_project);
        let mut ids: Vec<i64> = Vec::new();
        let mut i: usize = 0;
        while i < t.entries.len()
            invariant
                i <= t.entries.len(),
                ids@ == t.entry_views().map_values(|e: EntryView| e.id).take(i as int),
            decreases t.entries.len() - i,
        {
            ids.push(t.entries[i].id);
            assert(ids@ =~= t.entry_views().map_values(|e: EntryView| e.id).take(i + 1));
            i = i + 1;
        }
        assert(ids@ =~= t.entry_views().map_values(|e: EntryView| e.id));
        let entries_ok = check_ids(&ids, t.next_entry);
        let mut ids: Vec<i64> = Vec::new();
        let mut i: usize = 0;
        while i < t.gestures.len()
            invariant
                i <= t.gestures.len(),
                ids@ == t.gesture_views().map_values(|g: CustomGestureRowView| g.id).take(i as int),
            decreases t.gestures.len() - i,
        {
            ids.push(t.gestures[i].id);
            assert(ids@ =~= t.gesture_views().map_values(|g: CustomGestureRowView| g.id).take(i + 1));
            i = i + 1;
        }
        assert(ids@ =~= t.gesture_views().map_values(|g: CustomGestureRowView| g.id));
        let gestures_ok = check_ids(&ids, t.next_gesture);
        let mut ids: Vec<i64> = Vec::new();
        let mut i: usize = 0;
        while i < t.samples.len()
            invariant
                i <= t.samples.len(),
                ids@ == t.sample_views().map_values(|s: SampleView| s.id).take(i as int),
            decreases t.samples.len() - i,
        {
            ids.push(t.samples[i].id);
            assert(ids@ =~= t.sample_views().map_values(|s: SampleView| s.id).take(i + 1));
            i = i + 1;
        }
        assert(ids@ =~= t.sample_views().map_values(|s: SampleView| s.id));
        let samples_ok = check_ids(&ids, t.next_sample);
        let keys_ok = check_keys(&t.settings);
        if !(projects_ok && entries_ok && gestures_ok && samples_ok && keys_ok) {
            return None;
        }
        let db = Db {
            projects: t.projects,
            entries: t.entries,
            settings: t.settings,
            gestures: t.gestures,
            samples: t.samples,
            next_project: t.next_project,
            next_entry: t.next_entry,
            next_gesture: t.next_gesture,
            next_sample: t.next_sample,
        };
        proof {
            let pv = db.projects_v();
            assert forall|a: int, b: int| #![trigger pv[a], pv[b]] 0 <= a < b < pv.len() implies pv[a].id < pv[b].id by {
                assert(t.project_views().map_values(|p: ProjectView| p.id)[a] == pv[a].id);
                assert(t.project_views().map_values(|p: ProjectView| p.id)[b] == pv[b].id);
            }
            assert forall|a: int| 0 <= a < db.projects@.len() implies 0 < #[trigger] db.projects@[a].id < db.next_project by {
                assert(t.project_views().map_values(|p: ProjectView| p.id)[a] == db.projects@[a].id);
            }
            let ev = db.entries_v();
            assert forall|a: int, b: int| #![trigger ev[a], ev[b]] 0 <= a < b < ev.len() implies ev[a].id < ev[b].id by {
                assert(t.entry_views().map_values(|e: EntryView| e.id)[a] == ev[a].id);
                assert(t.entry_views().map_values(|e: EntryView| e.id)[b] == ev[b].id);
            }
            assert forall|a: int| 0 <= a < db.entries@.len() implies 0 < #[trigger] db.entries@[a].id < db.next_entry by {
                assert(t.entry_views().map_values(|e: EntryView| e.id)[a] == db.entries@[a].id);
            }
            let gv = db.gestures_v();
            assert forall|a: int, b: int| #![trigger gv[a], gv[b]] 0 <= a < b < gv.len() implies gv[a].id < gv[b].id by {
                assert(t.gesture_views().map_values(|g: CustomGestureRowView| g.id)[a] == gv[a].id);
                assert(t.gesture_views().map_values(|g: CustomGestureRowView| g.id)[b] == gv[b].id);
            }
            assert forall|a: int| 0 <= a < db.gestures@.len() implies 0 < #[trigger] db.gestures@[a].id < db.next_gesture by {
                assert(t.gesture_views().map_values(|g: CustomGestureRowView| g.id)[a] == db.gestures@[a].id);
            }
            let sv = db.samples_v();
            assert forall|a: int, b: int| #![trigger sv[a], sv[b]] 0 <= a < b < sv.len() implies sv[a].id < sv[b].id by {
                assert(t.sample_views().map_values(|s: SampleView| s.id)[a] == sv[a].id);
                assert(t.sample_views().map_values(|s: SampleView| s.id)[b] == sv[b].id);
            }
            assert forall|a: int| 0 <= a < db.samples@.len() implies 0 < #[trigger] db.samples@[a].id < db.next_sample by {
                assert(t.sample_views().map_values(|s: SampleView| s.id)[a] == db.samples@[a].id);
            }
        }
        Some(db)
    }

    /// The stored projects.
    pub fn project_rows(&self) -> (r: &Vec<Project>)
        ensures
            r@.map_values(|p: Project| p@) == self.projects_v(),
    {
        &self.projects
    }

    /// The stored time entries.
    pub fn entry_rows(&self) -> (r: &Vec<EntryRow>)
        ensures
            r@.map_values(|e: EntryRow| e@) == self.entries_v(),
    {
        &self.entries
    }

    /// The stored settings as key and value.
    pub fn setting_rows(&self) -> (r: &Vec<(String, String)>)
        ensures
            r.deep_view() == self.settings_v(),
    {
        &self.settings
    }

    /// The stored custom gestures.
    pub fn gesture_rows(&self) -> (r: &Vec<CustomGestureRow>)
        ensures
            r@.map_values(|g: CustomGestureRow| g@) == self.gestures_v(),
    {
        &self.gestures
    }

    /// The stored gesture samples.
    pub fn sample_rows(&self) -> (r: &Vec<SampleRow>)
        ensures
            r@.map_values(|s: SampleRow| s@) == self.samples_v(),
    {
        &self.samples
    }

    /// The next id of each table: projects, entries, gestures, samples.
    pub fn next_id_values(&self) -> (r: (i64, i64, i64, i64))
        ensures
            r == self.next_ids(),
    {
        (self.next_project, self.next_entry, self.next_gesture, self.next_sample)
    }
}

} // verus!
