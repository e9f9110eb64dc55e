//! Totals of a day: the seconds worked, per project and altogether.
//!
//! They follow `SUM(COALESCE(duration_seconds, 0))` over the finished
//! entries that started on the day; a total outside the integer range is
//! SQLite's "integer overflow" error.

use vstd::prelude::*;

use super::{
    overflow_error, project_name_of, project_with, sql_date, sql_date_exec, Db, EntryView, ProjectTotal,
    ProjectTotalView, ProjectView, DEFAULT_COLOR,
};
use crate::error::AppResult;
use crate::order::Ranked;

verus! {

broadcast use vstd::seq_lib::group_to_multiset_ensures;

/// Does a finished entry count toward the given day?
pub open spec fn counted_on(e: EntryView, day: Seq<char>) -> bool {
    &&& sql_date(e.start_ts) is Some
    &&& sql_date(e.start_ts) == sql_date(day)
    &&& e.end_ts is Some
}

/// The seconds an entry adds to a sum (`COALESCE(duration_seconds, 0)`).
pub open spec fn duration_of(e: EntryView) -> int {
    match e.duration {
        Some(d) => d as int,
        None => 0,
    }
}

/// Seconds of the entries of a day booked on one project (or on none).
pub open spec fn day_sum(rows: Seq<EntryView>, day: Seq<char>, project_id: Option<i64>) -> int
    decreases rows.len(),
{
    if rows.len() == 0 {
        0
    } else {
        let e = rows.last();
        day_sum(rows.drop_last(), day, project_id) + if counted_on(e, day) && e.project_id == project_id {
            duration_of(e)
        } else {
            0
        }
    }
}

/// Seconds of all entries of a day.
pub open spec fn day_sum_all(rows: Seq<EntryView>, day: Seq<char>) -> int
    decreases rows.len(),
{
    if rows.len() == 0 {
        0
    } else {
        let e = rows.last();
        day_sum_all(rows.drop_last(), day) + if counted_on(e, day) {
            duration_of(e)
        } else {
            0
        }
    }
}

/// The projects (or none) that entries of the day are booked on, each once,
/// in the order of their first entry.
pub open spec fn group_ids(rows: Seq<EntryView>, day: Seq<char>) -> Seq<Option<i64>>
    decreases rows.len(),
{
    if rows.len() == 0 {
        Seq::empty()
    } else {
        let e = rows.last();
        let before = group_ids(rows.drop_last(), day);
        if counted_on(e, day) && !before.contains(e.project_id) {
            before.push(e.project_id)
        } else {
            before
        }
    }
}

pub open spec fn fits_i64(x: int) -> bool {
    i64::MIN <= x <= i64::MAX
}

/// The color shown for a project: its own, else the default.
pub open spec fn color_of(projects: Seq<ProjectView>, project_id: Option<i64>) -> Seq<char> {
    match project_id {
        Some(p) => match project_with(projects, p) {
            Some(pr) => pr.color,
            None => DEFAULT_COLOR@,
        },
        None => DEFAULT_COLOR@,
    }
}

/// The total of one project on a day.
pub open spec fn total_of(
    rows: Seq<EntryView>,
    projects: Seq<ProjectView>,
    day: Seq<char>,
    project_id: Option<i64>,
) -> ProjectTotalView {
    ProjectTotalView {
        project_id,
        project_name: project_name_of(projects, project_id),
        color: color_of(projects, project_id),
        seconds: day_sum(rows, day, project_id) as i64,
    }
}

/// Every project total of the day fits the integer range.
pub open spec fn totals_fit(rows: Seq<EntryView>, day: Seq<char>) -> bool {
    forall|k: int| 0 <= k < group_ids(rows, day).len() ==> fits_i64(day_sum(rows, day, #[trigger] group_ids(rows, day)[k]))
}

/// The totals of a day, one per project that has entries on it.
pub open spec fn totals_selection(rows: Seq<EntryView>, projects: Seq<ProjectView>, day: Seq<char>) -> Seq<
    ProjectTotalView,
> {
    group_ids(rows, day).map_values(|p: Option<i64>| total_of(rows, projects, day, p))
}

/// Entries without a project come before all projects; then by id.
pub open spec fn project_id_le(a: Option<i64>, b: Option<i64>) -> bool {
    match (a, b) {
        (None, _) => true,
        (Some(_), None) => false,
        (Some(x), Some(y)) => x <= y,
    }
}

/// Largest total first; equal totals by project id.
pub open spec fn total_before(a: ProjectTotalView, b: ProjectTotalView) -> bool {
    if a.seconds != b.seconds {
        a.seconds > b.seconds
    } else {
        project_id_le(a.project_id, b.project_id)
    }
}

impl Ranked for ProjectTotal {
    open spec fn precedes(&self, other: &Self) -> bool {
        total_before(self@, other@)
    }

    proof fn lemma_total(a: &Self, b: &Self) {
    }

    proof fn lemma_trans(a: &Self, b: &Self, c: &Self) {
    }

    fn precedes_exec(&self, other: &Self) -> (r: bool) {
        if self.seconds != other.seconds {
            self.seconds > other.seconds
        } else {
            match (self.project_id, other.project_id) {
                (None, _) => true,
                (Some(_), None) => false,
                (Some(x), Some(y)) => x <= y,
            }
        }
    }
}

proof fn lemma_push_day(s: Seq<EntryView>, e: EntryView, day: Seq<char>)
    ensures
        group_ids(s.push(e), day) == (if counted_on(e, day) && !group_ids(s, day).contains(e.project_id) {
            group_ids(s, day).push(e.project_id)
        } else {
            group_ids(s, day)
        }),
        forall|p: Option<i64>| #[trigger]
            day_sum(s.push(e), day, p) == day_sum(s, day, p) + if counted_on(e, day) && e.project_id == p {
                duration_of(e)
            } else {
                0
            },
        day_sum_all(s.push(e), day) == day_sum_all(s, day) + if counted_on(e, day) {
            duration_of(e)
        } else {
            0
        },
{
    assert(s.push(e).drop_last() =~= s);
}

proof fn lemma_day_sum_bounds(s: Seq<EntryView>, day: Seq<char>, p: Option<i64>)
    ensures
        -(s.len() as int) * 0x8000_0000_0000_0000 <= day_sum(s, day, p) <= (s.len() as int) * 0x7fff_ffff_ffff_ffff,
        -(s.len() as int) * 0x8000_0000_0000_0000 <= day_sum_all(s, day) <= (s.len() as int) * 0x7fff_ffff_ffff_ffff,
    decreases s.len(),
{
    if s.len() > 0 {
        lemma_day_sum_bounds(s.drop_last(), day, p);
    }
}

proof fn lemma_group_ids_distinct(s: Seq<EntryView>, day: Seq<char>)
    ensures
        group_ids(s, day).no_duplicates(),
    decreases s.len(),
{
    if s.len() > 0 {
        lemma_group_ids_distinct(s.drop_last(), day);
    }
}

proof fn lemma_absent_sum(s: Seq<EntryView>, day: Seq<char>, p: Option<i64>)
    requires
        !group_ids(s, day).contains(p),
    ensures
        day_sum(s, day, p) == 0,
    decreases s.len(),
{
    if s.len() > 0 {
        let before = group_ids(s.drop_last(), day);
        if before.contains(p) {
            let k = choose|k: int| 0 <= k < before.len() && before[k] == p;
            let e = s.last();
            if counted_on(e, day) && !before.contains(e.project_id) {
                assert(before.push(e.project_id)[k] == p);
            }
            assert(group_ids(s, day)[k] == p);
        }
        let e = s.last();
        if counted_on(e, day) && e.project_id == p {
            assert(before.push(p)[before.len() as int] == p);
        }
        lemma_absent_sum(s.drop_last(), day, p);
    }
}

/// Are two day strings (as `sql_date` gives them) the same day?
fn same_day(a: &Option<Vec<char>>, b: &Option<Vec<char>>) -> (r: bool)
    ensures
        r == (a is Some && b is Some && a->0@ == b->0@),
{
    match (a, b) {
        (Some(x), Some(y)) => crate::order::vec_eq(x, y),
        _ => false,
    }
}

impl Db {
    fn project_color_for(&self, id: Option<i64>) -> (r: String)
        requires
            self.wf(),
        ensures
            r@ == color_of(self.projects_v(), id),
    {
        match id {
            Some(p) => match self.project_position(p) {
                Some(k) => self.projects[k].color.clone(),
                None => crate::text::owned(DEFAULT_COLOR),
            },
            None => crate::text::owned(DEFAULT_COLOR),
        }
    }

    /// Does the stored entry at `i` count toward the day?
    fn counted_at(&self, i: usize, day: &Option<Vec<char>>) -> (r: bool)
        requires
            i < self.entries_v().len(),
        ensures
            forall|d: Seq<char>|
                (match day {
                    Some(v) => sql_date(d) == Some(v@),
                    None => sql_date(d) is None,
                }) ==> r == counted_on(#[trigger] self.entries_v()[i as int], d),
    {
        assert(self.entries_v()[i as int] == self.entries@[i as int]@);
        let start = sql_date_exec(self.entries[i].start_ts.as_str());
        same_day(&start, day) && self.entries[i].end_ts.is_some()
    }

    /// The seconds worked per project on a day, largest first.
    pub fn totals_for_day(&self, day: &str) -> (r: AppResult<Vec<ProjectTotal>>)
        requires
            self.wf(),
        ensures
            match r {
                Ok(v) => totals_fit(self.entries_v(), day@)
                    && v@.map_values(|t: ProjectTotal| t@).to_multiset() == totals_selection(
                    self.entries_v(),
                    self.projects_v(),
                    day@,
                ).to_multiset()
                    && forall|i: int, k: int| #![trigger v@[i], v@[k]] 0 <= i < k < v@.len() ==> total_before(v@[i]@, v@[k]@),
                Err(e) => !totals_fit(self.entries_v(), day@) && e@ == overflow_error(),
            },
    {
        let ghost rows = self.entries_v();
        let day_d = sql_date_exec(day);
        let mut groups: Vec<(Option<i64>, i128)> = Vec::new();
        let mut i: usize = 0;
        while i < self.entries.len()
            invariant
                i <= self.entries.len(),
                self.wf(),
                rows == self.entries_v(),
                rows.len() == self.entries.len(),
                match day_d {
                    Some(v) => sql_date(day@) == Some(v@),
                    None => sql_date(day@) is None,
                },
                groups@.len() == group_ids(rows.take(i as int), day@).len(),
                forall|g: int|
                    0 <= g < groups@.len() ==> (#[trigger] groups@[g]).0 == group_ids(rows.take(i as int), day@)[g]
                        && groups@[g].1 == day_sum(rows.take(i as int), day@, groups@[g].0),
            decreases self.entries.len() - i,
        {
            let ghost s = rows.take(i as int);
            let ghost e = rows[i as int];
            proof {
                assert(rows.take(i + 1) =~= s.push(e));
                lemma_push_day(s, e, day@);
                lemma_day_sum_bounds(s, day@, e.project_id);
                assert(e == self.entries@[i as int]@);
            }
            let counted = self.counted_at(i, &day_d);
            assert(counted == counted_on(e, day@));
            if counted {
                let pid = self.entries[i].project_id;
                let d: i128 = match self.entries[i].duration_seconds {
                    Some(x) => x as i128,
                    None => 0,
                };
                assert(pid == e.project_id && d == duration_of(e));
                let mut pos: usize = 0;
                while pos < groups.len() && groups[pos].0 != pid
                    invariant
                        pos <= groups@.len(),
                        forall|g: int| 0 <= g < pos ==> (#[trigger] groups@[g]).0 != pid,
                    decreases groups.len() - pos,
                {
                    pos = pos + 1;
                }
                let ghost before = groups@;
                if pos < groups.len() {
                    assert(group_ids(s, day@).contains(pid)) by {
                        assert(group_ids(s, day@)[pos as int] == pid);
                    }
                    let acc = groups[pos].1;
                    groups.set(pos, (pid, acc + d));
                    assert(group_ids(rows.take(i + 1), day@) == group_ids(s, day@));
                    proof {
                        lemma_group_ids_distinct(s, day@);
                    }
                    assert forall|g: int| 0 <= g < groups@.len() implies (#[trigger] groups@[g]).0 == group_ids(
                        rows.take(i + 1),
                        day@,
                    )[g] && groups@[g].1 == day_sum(rows.take(i + 1), day@, groups@[g].0) by {
                        assert(day_sum(s.push(e), day@, groups@[g].0) == day_sum(s, day@, groups@[g].0) + if pid
                            == groups@[g].0 {
                            d as int
                        } else {
                            0
                        });
                        if g != pos {
                            assert(groups@[g] == before[g]);
                            assert(group_ids(s, day@)[g] != group_ids(s, day@)[pos as int]);
                        } else {
                            assert(groups@[g] == (pid, (acc + d) as i128));
                            assert(before[g].1 == day_sum(s, day@, pid));
                            assert(group_ids(rows.take(i + 1), day@) == group_ids(s, day@));
                        }
                    }
                } else {
                    assert(!group_ids(s, day@).contains(pid)) by {
                        if group_ids(s, day@).contains(pid) {
                            let g = choose|g: int| 0 <= g < group_ids(s, day@).len() && group_ids(s, day@)[g] == pid;
                            assert(before[g].0 == pid);
                        }
                    }
                    groups.push((pid, d));
                    assert forall|g: int| 0 <= g < groups@.len() implies (#[trigger] groups@[g]).0 == group_ids(
                        rows.take(i + 1),
                        day@,
                    )[g] && groups@[g].1 == day_sum(rows.take(i + 1), day@, groups@[g].0) by {
                        assert(day_sum(s.push(e), day@, groups@[g].0) == day_sum(s, day@, groups@[g].0) + if pid
                            == groups@[g].0 {
                            d as int
                        } else {
                            0
                        });
                        if g < before.len() {
                            assert(groups@[g] == before[g]);
                            assert(groups@[g].0 != pid);
                        } else {
                            lemma_absent_sum(s, day@, pid);
                        }
                    }
                }
            } else {
                assert forall|g: int| 0 <= g < groups@.len() implies (#[trigger] groups@[g]).0 == group_ids(
                    rows.take(i + 1),
                    day@,
                )[g] && groups@[g].1 == day_sum(rows.take(i + 1), day@, groups@[g].0) by {}
            }
            i = i + 1;
        }
        assert(rows.take(rows.len() as int) =~= rows);
        let ghost ids = group_ids(rows, day@);
        let ghost tv = |p: Option<i64>| total_of(rows, self.projects_v(), day@, p);
        let ghost view = |t: ProjectTotal| t@;
        let mut totals: Vec<ProjectTotal> = Vec::new();
        let mut k: usize = 0;
        while k < groups.len()
            invariant
                k <= groups@.len(),
                self.wf(),
                rows == self.entries_v(),
                groups@.len() == ids.len(),
                ids == group_ids(rows, day@),
                tv == (|p: Option<i64>| total_of(rows, self.projects_v(), day@, p)),
                view == (|t: ProjectTotal| t@),
                forall|g: int|
                    0 <= g < groups@.len() ==> (#[trigger] groups@[g]).0 == ids[g] && groups@[g].1 == day_sum(
                        rows,
                        day@,
                        groups@[g].0,
                    ),
                forall|g: int| 0 <= g < k ==> fits_i64(day_sum(rows, day@, #[trigger] ids[g])),
                totals@.map_values(view) == ids.take(k as int).map_values(tv),
            decreases groups.len() - k,
        {
            let (pid, acc) = groups[k];
            assert(groups@[k as int].0 == ids[k as int]);
            if acc < i64::MIN as i128 || acc > i64::MAX as i128 {
                assert(!fits_i64(day_sum(rows, day@, ids[k as int])));
                return Err(super::db_error("integer overflow"));
            }
            let ghost before = totals@;
            totals.push(
                ProjectTotal {
                    project_id: pid,
                    project_name: self.project_name_for(pid),
                    color: self.project_color_for(pid),
                    seconds: acc as i64,
                },
            );
            assert(totals@.map_values(view) =~= before.map_values(view).push(tv(ids[k as int])));
            assert(ids.take(k + 1).map_values(tv) =~= ids.take(k as int).map_values(tv).push(tv(ids[k as int])));
            k = k + 1;
        }
        assert(ids.take(ids.len() as int) =~= ids);
        let ghost unsorted = totals@;
        let sorted = crate::order::sort_ranked(totals);
        proof {
            crate::order::lemma_map_multiset(sorted@, unsorted, view);
            assert forall|a: int, b: int| #![trigger sorted@[a], sorted@[b]] 0 <= a < b < sorted@.len() implies total_before(
                sorted@[a]@,
                sorted@[b]@,
            ) by {
                assert(sorted@[a].precedes(&sorted@[b]));
            }
        }
        Ok(sorted)
    }

    /// The seconds worked on a day, over all projects.
    pub fn day_total(&self, day: &str) -> (r: AppResult<i64>)
        requires
            self.wf(),
        ensures
            match r {
                Ok(x) => fits_i64(day_sum_all(self.entries_v(), day@)) && x == day_sum_all(self.entries_v(), day@),
                Err(e) => !fits_i64(day_sum_all(self.entries_v(), day@)) && e@ == overflow_error(),
            },
    {
        let ghost rows = self.entries_v();
        let day_d = sql_date_exec(day);
        let mut acc: i128 = 0;
        let mut i: usize = 0;
        while i < self.entries.len()
            invariant
                i <= self.entries.len(),
                rows == self.entries_v(),
                rows.len() == self.entries.len(),
                match day_d {
                    Some(v) => sql_date(day@) == Some(v@),
                    None => sql_date(day@) is None,
                },
                acc == day_sum_all(rows.take(i as int), day@),
            decreases self.entries.len() - i,
        {
            let ghost s = rows.take(i as int);
            let ghost e = rows[i as int];
            proof {
                assert(rows.take(i + 1) =~= s.push(e));
                lemma_push_day(s, e, day@);
                lemma_day_sum_bounds(s, day@, None);
                assert(e == self.entries@[i as int]@);
            }
            let counted = self.counted_at(i, &day_d);
            assert(counted == counted_on(e, day@));
            if counted {
                match self.entries[i].duration_seconds {
                    Some(x) => {
                        acc = acc + x as i128;
                    },
                    None => {},
                }
            }
            i = i + 1;
        }
        assert(rows.take(rows.len() as int) =~= rows);
        if acc < i64::MIN as i128 || acc > i64::MAX as i128 {
            return Err(super::db_error("integer overflow"));
        }
        Ok(acc as i64)
    }
}


/// An entry that is still running counts toward no total of any day.
pub proof fn law_open_entries_not_counted(rows: Seq<EntryView>, day: Seq<char>, e: EntryView, p: Option<i64>)
    requires
        e.end_ts is None,
    ensures
        day_sum_all(rows.push(e), day) == day_sum_all(rows, day),
        day_sum(rows.push(e), day, p) == day_sum(rows, day, p),
        group_ids(rows.push(e), day) == group_ids(rows, day),
{
    lemma_push_day(rows, e, day);
}

/// The totals per project add up to the total of the day.
pub proof fn law_totals_add_up(rows: Seq<EntryView>, day: Seq<char>)
    ensures
        sum_of_groups(rows, day, group_ids(rows, day)) == day_sum_all(rows, day),
    decreases rows.len(),
{
    if rows.len() > 0 {
        let s = rows.drop_last();
        let e = rows.last();
        assert(s.push(e) =~= rows);
        law_totals_add_up(s, day);
        lemma_push_day(s, e, day);
        lemma_group_ids_distinct(s, day);
        lemma_sum_of_groups_push(s, e, day, group_ids(s, day));
        if counted_on(e, day) && !group_ids(s, day).contains(e.project_id) {
            lemma_absent_sum(s, day, e.project_id);
            lemma_sum_of_groups_append(rows, day, group_ids(s, day), e.project_id);
        }
    }
}

/// The seconds of the given projects on a day, added up.
pub open spec fn sum_of_groups(rows: Seq<EntryView>, day: Seq<char>, ids: Seq<Option<i64>>) -> int
    decreases ids.len(),
{
    if ids.len() == 0 {
        0
    } else {
        sum_of_groups(rows, day, ids.drop_last()) + day_sum(rows, day, ids.last())
    }
}

proof fn lemma_sum_of_groups_append(rows: Seq<EntryView>, day: Seq<char>, ids: Seq<Option<i64>>, p: Option<i64>)
    ensures
        sum_of_groups(rows, day, ids.push(p)) == sum_of_groups(rows, day, ids) + day_sum(rows, day, p),
{
    assert(ids.push(p).drop_last() =~= ids);
}

/// Adding an entry adds its seconds to the group sum of its project, if
/// that project is among the groups (once, as the groups are distinct).
proof fn lemma_sum_of_groups_push(s: Seq<EntryView>, e: EntryView, day: Seq<char>, ids: Seq<Option<i64>>)
    requires
        ids.no_duplicates(),
    ensures
        sum_of_groups(s.push(e), day, ids) == sum_of_groups(s, day, ids) + if counted_on(e, day) && ids.contains(
            e.project_id,
        ) {
            duration_of(e)
        } else {
            0
        },
    decreases ids.len(),
{
    lemma_push_day(s, e, day);
    if ids.len() > 0 {
        let rest = ids.drop_last();
        assert(rest.no_duplicates());
        lemma_sum_of_groups_push(s, e, day, rest);
        if ids.last() == e.project_id {
            assert(!rest.contains(e.project_id)) by {
                if rest.contains(e.project_id) {
                    let k = choose|k: int| 0 <= k < rest.len() && rest[k] == e.project_id;
                    assert(ids[k] == ids[ids.len() - 1]);
                }
            }
        } else {
            assert(ids.contains(e.project_id) == rest.contains(e.project_id)) by {
                if ids.contains(e.project_id) {
                    let k = choose|k: int| 0 <= k < ids.len() && ids[k] == e.project_id;
                    assert(rest[k] == ids[k]);
                }
                if rest.contains(e.project_id) {
                    let k = choose|k: int| 0 <= k < rest.len() && rest[k] == e.project_id;
                    assert(ids[k] == rest[k]);
                }
            }
        }
    }
}

} // verus!
