//! Projects, time entries and the gesture slots as the user edits them.
//! The entry of a running session belongs to the state machine: it cannot
//! be edited or deleted by hand while it runs.

use vstd::prelude::*;

use super::{entry_open_for, AppState};
use crate::clock::now;
use crate::db::totals::{totals_fit, totals_selection, total_before};
use crate::db::{
    entry_deleted, entry_inserted, entry_updated, entry_with, project_created, project_deleted, project_with,
    res_view, same_except_settings, Db, EntryView, Project, ProjectTotal, ProjectView,
};
use crate::error::{keyed, AppError, AppResult};
use crate::state::{
    plan_entry, plan_failed, planned_from, slot_key, slot_project, slot_setting, EntryInput,
    PlannedEntry, KEY_SLOT_1, KEY_SLOT_2,
};
use crate::text::{decimal, int_text, trimmed};

verus! {

proof fn lemma_open_kept_remove(entries: Seq<EntryView>, k: int, s: crate::state::Session)
    requires
        entry_open_for(entries, s),
        0 <= k < entries.len(),
        entries[k].id != s.entry_id,
    ensures
        entry_open_for(entries.remove(k), s),
{
    let j = choose|j: int|
        0 <= j < entries.len() && #[trigger] entries[j].id == s.entry_id && entries[j].end_ts is None
            && entries[j].project_id == Some(s.project_id);
    if j < k {
        assert(entries.remove(k)[j] == entries[j]);
    } else {
        assert(entries.remove(k)[j - 1] == entries[j]);
    }
}

/// Only the settings changed: `key` now holds `value`.
pub open spec fn setting_written(before: &AppState, after: &AppState, key: Seq<char>, value: Seq<char>) -> bool {
    &&& same_except_settings(&before.db, &after.db)
    &&& forall|k: Seq<char>|
        #[trigger] after.db.setting_value(k) == if k == key {
            Some(value)
        } else {
            before.db.setting_value(k)
        }
    &&& after.tracker.session == before.tracker.session
    &&& after.current_lang == before.current_lang
}

/// Does slot `slot` still lack a project once the projects are `projects`?
pub open spec fn slot_free(db: &Db, projects: Seq<ProjectView>, slot: u8) -> bool {
    match crate::state::slot_target(db, slot) {
        Some(id) => project_with(projects, id) is None,
        None => true,
    }
}

/// A new project lands on the first free gesture slot, if there is one; no
/// other setting changes.
pub open spec fn slot_assigned(before: &Db, after: &Db, id: i64) -> bool {
    let free1 = slot_free(before, after.projects_v(), 1);
    let free2 = slot_free(before, after.projects_v(), 2);
    forall|k: Seq<char>|
        #[trigger] after.setting_value(k) == if free1 && k == KEY_SLOT_1@ {
            Some(decimal(id as int))
        } else if !free1 && free2 && k == KEY_SLOT_2@ {
            Some(decimal(id as int))
        } else {
            before.setting_value(k)
        }
}

pub open spec fn opt_view(p: Option<Project>) -> Option<ProjectView> {
    match p {
        Some(p) => Some(p@),
        None => None,
    }
}

impl AppState {
    /// Puts a project on a gesture slot, or clears the slot.
    pub fn set_slot(&mut self, slot: u8, project_id: Option<i64>) -> (r: AppResult<()>)
        requires
            old(self).wf(),
        ensures
            final(self).wf(),
            match slot_setting(slot) {
                None => r matches Err(e) && e@ == keyed("slot.only_two"@) && super::unchanged(old(self), final(self)),
                Some(key) => r is Ok && setting_written(
                    old(self),
                    final(self),
                    key,
                    match project_id {
                        Some(id) => decimal(id as int),
                        None => Seq::empty(),
                    },
                ),
            },
    {
        let key = slot_key(slot)?;
        let value = match project_id {
            Some(id) => int_text(id),
            None => String::new(),
        };
        let _ = self.db.set_setting(key, value.as_str());
        Ok(())
    }

    /// Creates a project. The first and second projects land on the gesture
    /// slots by themselves.
    pub fn create_project(&mut self, name: &str, color: &str) -> (r: AppResult<Project>)
        requires
            old(self).wf(),
        ensures
            final(self).wf(),
            final(self).tracker.session == old(self).tracker.session,
            final(self).current_lang == old(self).current_lang,
            match r {
                Ok(p) => {
                    &&& trimmed(name@).len() > 0
                    &&& p.id == old(self).db.next_ids().0
                    &&& p@ == ProjectView {
                        id: p.id,
                        name: trimmed(name@),
                        color: color@,
                        active: true,
                        created_at: p@.created_at,
                    }
                    &&& final(self).db.projects_v() == old(self).db.projects_v().push(p@)
                    &&& final(self).db.next_ids() == (
                        (p.id + 1) as i64,
                        old(self).db.next_ids().1,
                        old(self).db.next_ids().2,
                        old(self).db.next_ids().3,
                    )
                    &&& final(self).db.entries_v() == old(self).db.entries_v()
                    &&& final(self).db.gestures_v() == old(self).db.gestures_v()
                    &&& final(self).db.samples_v() == old(self).db.samples_v()
                    &&& slot_assigned(&old(self).db, &final(self).db, p.id)
                },
                Err(e) => project_created(&old(self).db, &final(self).db, name@, color@, Err(e@)),
            },
    {
        let id = self.db.create_project(name, color)?;
        let ghost mid = self.db;
        let free1 = match slot_project(&self.db, 1) {
            Ok(None) => true,
            _ => false,
        };
        let free2 = match slot_project(&self.db, 2) {
            Ok(None) => true,
            _ => false,
        };
        if free1 {
            let _ = self.db.set_setting(KEY_SLOT_1, int_text(id).as_str());
        } else if free2 {
            let _ = self.db.set_setting(KEY_SLOT_2, int_text(id).as_str());
        }
        assert(project_created(&old(self).db, &mid, name@, color@, Ok(id)));
        proof {
            let ps = self.db.projects_v();
            assert(ps[ps.len() - 1].id == id);
            self.db.lemma_project_found(ps.len() - 1);
        }
        let project = match self.db.project(id) {
            Ok(Some(p)) => p,
            _ => return Err(AppError::key("project.unreadable")),
        };
        assert(project.id == id);
        Ok(project)
    }

    /// Renames, recolors or (de)activates a project.
    pub fn update_project(&mut self, id: i64, name: &str, color: &str, active: bool) -> (r: AppResult<()>)
        requires
            old(self).wf(),
        ensures
            final(self).wf(),
            final(self).tracker.session == old(self).tracker.session,
            final(self).current_lang == old(self).current_lang,
            crate::db::project_updated(&old(self).db, &final(self).db, id, name@, color@, active, res_view(r)),
    {
        self.db.update_project(id, name, color, active)
    }

    /// Deletes a project; `false` when it has time entries and was only
    /// deactivated. The running project cannot be deleted.
    pub fn delete_project(&mut self, id: i64) -> (r: AppResult<bool>)
        requires
            old(self).wf(),
        ensures
            final(self).wf(),
            final(self).tracker.session == old(self).tracker.session,
            final(self).current_lang == old(self).current_lang,
            if old(self).tracker.session matches Some(s) && s.project_id == id {
                r matches Err(e) && e@ == keyed("project.running"@) && final(self).db == old(self).db
            } else {
                project_deleted(&old(self).db, &final(self).db, id, res_view(r))
            },
    {
        if let Some(s) = self.tracker.get() {
            if s.project_id == id {
                return Err(AppError::key("project.running"));
            }
        }
        self.db.delete_project(id)
    }

    /// Refuses to touch the entry of the running session.
    pub fn ensure_not_running(&self, id: i64) -> (r: AppResult<()>)
        ensures
            match r {
                Ok(()) => !(self.tracker.session matches Some(s) && s.entry_id == id),
                Err(e) => self.tracker.session matches Some(s) && s.entry_id == id && e@ == keyed("entry.is_running"@),
            },
    {
        if let Some(s) = self.tracker.get() {
            if s.entry_id == id {
                return Err(AppError::key("entry.is_running"));
            }
        }
        Ok(())
    }

    /// A new entry by hand, such as for forgotten times.
    pub fn create_entry(&mut self, input: &EntryInput) -> (r: AppResult<i64>)
        requires
            old(self).wf(),
        ensures
            final(self).wf(),
            final(self).tracker.session == old(self).tracker.session,
            final(self).current_lang == old(self).current_lang,
            match r {
                Ok(id) => exists|p: PlannedEntry|
                    #[trigger] planned_from(input.start@, input.end@, input.pause_minutes, p) && entry_inserted(
                        &old(self).db,
                        &final(self).db,
                        input.project_id,
                        p.start,
                        p.end,
                        p.pause_seconds,
                        p.duration_seconds,
                        Ok(id),
                    ),
                Err(e) => final(self).db == old(self).db && {
                    ||| plan_failed(input.start@, input.end@, input.pause_minutes, e@)
                    ||| project_with(old(self).db.projects_v(), input.project_id) is None && e@ == keyed(
                        "project.missing"@,
                    )
                    ||| old(self).db.next_ids().1 == i64::MAX && e@ == crate::db::full_error()
                },
            },
    {
        let planned = plan_entry(input)?;
        match self.db.project(input.project_id) {
            Ok(Some(_)) => {},
            _ => return Err(AppError::key("project.missing")),
        }
        let ghost before = self.db.entries_v();
        let id = self.db.insert_entry(
            input.project_id,
            &planned.start,
            &planned.end,
            planned.pause_seconds,
            planned.duration_seconds,
        )?;
        proof {
            if let Some(s) = self.tracker.session {
                super::lemma_open_kept_push(before, self.db.entries_v().last(), s);
            }
        }
        assert(planned_from(input.start@, input.end@, input.pause_minutes, planned));
        Ok(id)
    }

    /// Changes an entry by hand; not the running one.
    pub fn update_entry(&mut self, id: i64, input: &EntryInput) -> (r: AppResult<()>)
        requires
            old(self).wf(),
        ensures
            final(self).wf(),
            final(self).tracker.session == old(self).tracker.session,
            final(self).current_lang == old(self).current_lang,
            match r {
                Ok(()) => exists|p: PlannedEntry|
                    #[trigger] planned_from(input.start@, input.end@, input.pause_minutes, p) && entry_updated(
                        &old(self).db,
                        &final(self).db,
                        id,
                        input.project_id,
                        p.start,
                        p.end,
                        p.pause_seconds,
                        p.duration_seconds,
                        Ok(()),
                    ) && entry_with(old(self).db.entries_v(), id) is Some,
                Err(e) => final(self).db == old(self).db && {
                    ||| old(self).tracker.session matches Some(s) && s.entry_id == id && e@ == keyed("entry.is_running"@)
                    ||| plan_failed(input.start@, input.end@, input.pause_minutes, e@)
                    ||| entry_with(old(self).db.entries_v(), id) is None && e@ == keyed("entry.gone"@)
                    ||| project_with(old(self).db.projects_v(), input.project_id) is None && e@ == keyed(
                        "project.missing"@,
                    )
                },
            },
    {
        self.ensure_not_running(id)?;
        let planned = plan_entry(input)?;
        match self.db.entry(id) {
            Ok(Some(_)) => {},
            _ => return Err(AppError::key("entry.gone")),
        }
        match self.db.project(input.project_id) {
            Ok(Some(_)) => {},
            _ => return Err(AppError::key("project.missing")),
        }
        let ghost before = self.db.entries_v();
        let ghost stamp_start = crate::clock::naive_text(planned.start.local, crate::clock::TS_FORMAT@);
        let ghost stamp_end = crate::clock::naive_text(planned.end.local, crate::clock::TS_FORMAT@);
        let _ = self.db.update_entry(
            id,
            input.project_id,
            &planned.start,
            &planned.end,
            planned.pause_seconds,
            planned.duration_seconds,
        );
        proof {
            if let Some(s) = self.tracker.session {
                super::lemma_open_kept_where(
                    before,
                    id,
                    |e: EntryView|
                        crate::db::entry_edited(
                            e,
                            input.project_id,
                            stamp_start,
                            stamp_end,
                            planned.pause_seconds,
                            planned.duration_seconds,
                        ),
                    s,
                );
            }
        }
        assert(planned_from(input.start@, input.end@, input.pause_minutes, planned));
        Ok(())
    }

    /// Deletes an entry by hand; not the running one.
    pub fn delete_entry(&mut self, id: i64) -> (r: AppResult<()>)
        requires
            old(self).wf(),
        ensures
            final(self).wf(),
            final(self).tracker.session == old(self).tracker.session,
            final(self).current_lang == old(self).current_lang,
            if old(self).tracker.session matches Some(s) && s.entry_id == id {
                r matches Err(e) && e@ == keyed("entry.is_running"@) && final(self).db == old(self).db
            } else {
                entry_deleted(&old(self).db, &final(self).db, id, res_view(r))
            },
    {
        self.ensure_not_running(id)?;
        let ghost before = self.db.entries_v();
        let r = self.db.delete_entry(id);
        proof {
            if let Some(s) = self.tracker.session {
                if entry_with(before, id) is Some {
                    let k = choose|k: int| 0 <= k < before.len() && before[k].id == id;
                    lemma_open_kept_remove(before, k, s);
                }
            }
        }
        r
    }

    /// The seconds per project on a day; today when no day is named.
    pub fn day_totals(&self, day: Option<&str>) -> (r: AppResult<Vec<ProjectTotal>>)
        requires
            self.wf(),
        ensures
            exists|d: Seq<char>|
                {
                    &&& #[trigger] day_named(day, d)
                    &&& match r {
                        Ok(v) => totals_fit(self.db.entries_v(), d) && v@.map_values(|t: ProjectTotal| t@).to_multiset()
                            == totals_selection(self.db.entries_v(), self.db.projects_v(), d).to_multiset() && forall|
                            i: int,
                            k: int,
                        |
                            #![trigger v@[i], v@[k]]
                            0 <= i < k < v@.len() ==> total_before(v@[i]@, v@[k]@),
                        Err(e) => !totals_fit(self.db.entries_v(), d) && e@ == crate::db::overflow_error(),
                    }
                },
    {
        match day {
            Some(d) => {
                assert(day_named(day, d@));
                self.db.totals_for_day(d)
            },
            None => {
                let now = now();
                let today = crate::clock::day_of(&now);
                assert(day_named(day, today@));
                self.db.totals_for_day(today.as_str())
            },
        }
    }
}

/// The day asked for: the one named, or some calendar day as chrono writes
/// it (today's).
pub open spec fn day_named(day: Option<&str>, d: Seq<char>) -> bool {
    match day {
        Some(text) => d == text@,
        None => exists|m: crate::clock::Moment| m.wf() && d == crate::state::today_of(m),
    }
}

} // verus!
