//! What the tray shows: status line, tooltip, the text beside the icon in
//! the menu bar, and the labels of the project menu. Building the menu is
//! the caller's business.

use vstd::prelude::*;

use crate::i18n::{filled, msg, msg_args, translated, CurrentLang, Lang};
use crate::state::{format_hms, hms_text, opt_string, Snapshot, TrackerStatus};
use crate::text::{chars_of, concat, last_non_space, owned, parse_i64, parsed_i64, starts_with, string_of};

verus! {

/// Id of the tray icon.
pub const TRAY_ID: &'static str = "gesture-timetrack";
/// Prefix of the menu ids of projects.
pub const PROJECT_PREFIX: &'static str = "project:";
/// Length from which the project name in the menu bar is shortened.
pub const TITLE_NAME_LIMIT: usize = 16;

/// A long name cut to the limit, with an ellipsis.
pub open spec fn shortened(name: Seq<char>) -> Seq<char> {
    if name.len() <= TITLE_NAME_LIMIT {
        name
    } else {
        let cut = name.take(TITLE_NAME_LIMIT - 1);
        cut.take(last_non_space(cut, 0, cut.len() as int)) + seq!['\u{2026}']
    }
}

/// Shortens long project names, so that the menu bar does not overflow.
pub fn shorten(name: &str) -> (r: String)
    ensures
        r@ == shortened(name@),
        r@.len() <= TITLE_NAME_LIMIT,
        name@.len() > TITLE_NAME_LIMIT ==> r@.last() == '\u{2026}',
{
    let chars = chars_of(name);
    if chars.len() <= TITLE_NAME_LIMIT {
        return owned(name);
    }
    let mut end: usize = TITLE_NAME_LIMIT - 1;
    let ghost cut = name@.take(TITLE_NAME_LIMIT - 1);
    while end > 0 && crate::text::is_white_space(chars[end - 1])
        invariant
            end <= TITLE_NAME_LIMIT - 1 < chars@.len(),
            chars@ == name@,
            cut == name@.take(TITLE_NAME_LIMIT - 1),
            last_non_space(cut, 0, (TITLE_NAME_LIMIT - 1) as int) == last_non_space(cut, 0, end as int),
        decreases end,
    {
        assert(cut[end - 1] == chars@[end - 1]);
        end = end - 1;
    }
    let mut out: Vec<char> = Vec::new();
    let mut k: usize = 0;
    while k < end
        invariant
            k <= end <= TITLE_NAME_LIMIT - 1 < chars@.len(),
            chars@ == name@,
            out@ == chars@.take(k as int),
        decreases end - k,
    {
        out.push(chars[k]);
        k = k + 1;
        assert(out@ =~= chars@.take(k as int));
    }
    out.push('\u{2026}');
    assert(out@ =~= cut.take(end as int) + seq!['\u{2026}']);
    assert(out@.len() <= TITLE_NAME_LIMIT);
    string_of(&out)
}

/// Name and clock of the running project in the menu bar; a pause is
/// marked; nothing while idle.
pub open spec fn title_text(status: TrackerStatus, name: Option<Seq<char>>, elapsed: i64) -> Option<Seq<char>> {
    if status == TrackerStatus::Idle {
        None
    } else {
        let clock = hms_text(elapsed as int);
        let mark = if status == TrackerStatus::Paused {
            seq!['\u{2016}', ' ']
        } else {
            Seq::empty()
        };
        Some(
            match name {
                Some(n) => mark + shortened(n) + seq![' ', '\u{b7}', ' '] + clock,
                None => mark + clock,
            },
        )
    }
}

/// The text beside the icon in the menu bar.
pub fn title(snapshot: &Snapshot) -> (r: Option<String>)
    ensures
        opt_string(r) == title_text(snapshot.status, opt_string(snapshot.project_name), snapshot.elapsed_seconds),
{
    if snapshot.status == TrackerStatus::Idle {
        return None;
    }
    let clock = format_hms(snapshot.elapsed_seconds);
    let mark = if snapshot.status == TrackerStatus::Paused {
        "\u{2016} "
    } else {
        ""
    };
    proof {
        reveal_strlit("\u{2016} ");
        reveal_strlit("");
        reveal_strlit(" \u{b7} ");
    }
    let text = match &snapshot.project_name {
        Some(name) => {
            let short = shorten(name.as_str());
            let a = concat(mark, short.as_str());
            let b = concat(a.as_str(), " \u{b7} ");
            concat(b.as_str(), clock.as_str())
        },
        None => concat(mark, clock.as_str()),
    };
    assert(text@ == title_text(snapshot.status, opt_string(snapshot.project_name), snapshot.elapsed_seconds)->0);
    Some(text)
}

/// The first line of the menu.
pub open spec fn status_line_text(lang: Lang, snap_status: TrackerStatus, name: Seq<char>, elapsed: i64) -> Seq<char> {
    match snap_status {
        TrackerStatus::Idle => translated(lang, "tray.stopped"@),
        TrackerStatus::Running => name + seq![' ', '\u{b7}', ' '] + hms_text(elapsed as int),
        TrackerStatus::Paused => filled(
            translated(lang, "tray.break"@),
            seq![("name"@, name), ("time"@, hms_text(elapsed as int))],
        ),
    }
}

pub open spec fn name_or_empty(name: Option<String>) -> Seq<char> {
    match name {
        Some(n) => n@,
        None => Seq::empty(),
    }
}

fn name_text(name: &Option<String>) -> (r: String)
    ensures
        r@ == name_or_empty(*name),
{
    match name {
        Some(n) => owned(n.as_str()),
        None => String::new(),
    }
}

/// The first line of the menu: stopped, or project and clock.
pub fn status_line(current_lang: &CurrentLang, snapshot: &Snapshot) -> (r: String)
    ensures
        r@ == status_line_text(
            current_lang.lang,
            snapshot.status,
            name_or_empty(snapshot.project_name),
            snapshot.elapsed_seconds,
        ),
{
    match snapshot.status {
        TrackerStatus::Idle => msg(current_lang, "tray.stopped"),
        TrackerStatus::Running => {
            proof {
                reveal_strlit(" \u{b7} ");
            }
            let name = name_text(&snapshot.project_name);
            let a = concat(name.as_str(), " \u{b7} ");
            concat(a.as_str(), format_hms(snapshot.elapsed_seconds).as_str())
        },
        TrackerStatus::Paused => {
            let args = vec![
                (owned("name"), name_text(&snapshot.project_name)),
                (owned("time"), format_hms(snapshot.elapsed_seconds)),
            ];
            assert(args.deep_view() =~= seq![
                ("name"@, name_or_empty(snapshot.project_name)),
                ("time"@, hms_text(snapshot.elapsed_seconds as int)),
            ]);
            msg_args(current_lang, "tray.break", &args)
        },
    }
}

/// The line with the time finished today.
pub fn today_line(current_lang: &CurrentLang, snapshot: &Snapshot) -> (r: String)
    ensures
        r@ == filled(translated(current_lang.lang, "tray.today"@), seq![("time"@, hms_text(snapshot.today_seconds as int))]),
{
    let args = vec![(owned("time"), format_hms(snapshot.today_seconds))];
    assert(args.deep_view() =~= seq![("time"@, hms_text(snapshot.today_seconds as int))]);
    msg_args(current_lang, "tray.today", &args)
}

/// The tooltip of the icon.
pub open spec fn tooltip_text(lang: Lang, snapshot: &Snapshot) -> Seq<char> {
    match snapshot.status {
        TrackerStatus::Idle => filled(
            translated(lang, "tray.tooltip_idle"@),
            seq![("today"@, hms_text(snapshot.today_seconds as int))],
        ),
        _ => filled(
            translated(lang, "tray.tooltip_active"@),
            seq![
                ("name"@, name_or_empty(snapshot.project_name)),
                ("status"@, snapshot.status_label@),
                ("running"@, hms_text(snapshot.elapsed_seconds as int)),
                ("today"@, hms_text(snapshot.today_seconds as int)),
            ],
        ),
    }
}

pub fn tooltip(current_lang: &CurrentLang, snapshot: &Snapshot) -> (r: String)
    ensures
        r@ == tooltip_text(current_lang.lang, snapshot),
{
    match snapshot.status {
        TrackerStatus::Idle => {
            let args = vec![(owned("today"), format_hms(snapshot.today_seconds))];
            assert(args.deep_view() =~= seq![("today"@, hms_text(snapshot.today_seconds as int))]);
            msg_args(current_lang, "tray.tooltip_idle", &args)
        },
        _ => {
            let args = vec![
                (owned("name"), name_text(&snapshot.project_name)),
                (owned("status"), owned(snapshot.status_label.as_str())),
                (owned("running"), format_hms(snapshot.elapsed_seconds)),
                (owned("today"), format_hms(snapshot.today_seconds)),
            ];
            assert(args.deep_view() =~= seq![
                ("name"@, name_or_empty(snapshot.project_name)),
                ("status"@, snapshot.status_label@),
                ("running"@, hms_text(snapshot.elapsed_seconds as int)),
                ("today"@, hms_text(snapshot.today_seconds as int)),
            ]);
            msg_args(current_lang, "tray.tooltip_active", &args)
        },
    }
}

/// Title of the project submenu: start when idle, else switch.
pub fn project_menu_title(current_lang: &CurrentLang, status: TrackerStatus) -> (r: String)
    ensures
        r@ == translated(
            current_lang.lang,
            if status == TrackerStatus::Idle {
                "tray.start_project"@
            } else {
                "tray.switch_project"@
            },
        ),
{
    msg(
        current_lang,
        if status == TrackerStatus::Idle {
            "tray.start_project"
        } else {
            "tray.switch_project"
        },
    )
}

/// Label of a project in the submenu and whether it can be chosen: the
/// running project is marked (paused or running) and cannot.
pub open spec fn project_item(lang: Lang, snapshot: &Snapshot, id: i64, name: Seq<char>) -> (Seq<char>, bool) {
    let running = snapshot.project_id == Some(id);
    let label = if running && snapshot.status == TrackerStatus::Paused {
        filled(translated(lang, "tray.project_paused"@), seq![("name"@, name)])
    } else if running {
        filled(translated(lang, "tray.project_running"@), seq![("name"@, name)])
    } else {
        name
    };
    (label, !running)
}

pub fn project_item_label(current_lang: &CurrentLang, snapshot: &Snapshot, id: i64, name: &str) -> (r: (String, bool))
    ensures
        (r.0@, r.1) == project_item(current_lang.lang, snapshot, id, name@),
{
    let running = snapshot.project_id == Some(id);
    let label = if running && snapshot.status == TrackerStatus::Paused {
        let args = vec![(owned("name"), owned(name))];
        assert(args.deep_view() =~= seq![("name"@, name@)]);
        msg_args(current_lang, "tray.project_paused", &args)
    } else if running {
        let args = vec![(owned("name"), owned(name))];
        assert(args.deep_view() =~= seq![("name"@, name@)]);
        msg_args(current_lang, "tray.project_running", &args)
    } else {
        owned(name)
    };
    (label, !running)
}

/// Label of the pause item: resume while paused.
pub fn pause_label(current_lang: &CurrentLang, status: TrackerStatus) -> (r: String)
    ensures
        r@ == translated(
            current_lang.lang,
            if status == TrackerStatus::Paused {
                "tray.resume"@
            } else {
                "tray.pause"@
            },
        ),
{
    msg(
        current_lang,
        if status == TrackerStatus::Paused {
            "tray.resume"
        } else {
            "tray.pause"
        },
    )
}

/// The project a menu id names: `project:<id>`.
pub open spec fn menu_project(id: Seq<char>) -> Option<i64> {
    if id.len() >= PROJECT_PREFIX@.len() && id.take(PROJECT_PREFIX@.len() as int) == PROJECT_PREFIX@ {
        parsed_i64(id.skip(PROJECT_PREFIX@.len() as int))
    } else {
        None
    }
}

/// The menu id of a project.
pub fn project_item_id(id: i64) -> (r: String)
    ensures
        r@ == PROJECT_PREFIX@ + crate::text::decimal(id as int),
{
    concat(PROJECT_PREFIX, crate::text::int_text(id).as_str())
}

/// Reads the project back from a menu id.
pub fn project_of_menu_id(id: &str) -> (r: Option<i64>)
    ensures
        r == menu_project(id@),
{
    if !starts_with(id, PROJECT_PREFIX) {
        return None;
    }
    let chars = chars_of(id);
    let n = PROJECT_PREFIX.unicode_len();
    let mut rest: Vec<char> = Vec::new();
    let mut i: usize = n;
    while i < chars.len()
        invariant
            n <= i <= chars@.len(),
            n == PROJECT_PREFIX@.len(),
            rest@ == chars@.subrange(n as int, i as int),
        decreases chars.len() - i,
    {
        rest.push(chars[i]);
        i = i + 1;
        assert(rest@ =~= chars@.subrange(n as int, i as int));
    }
    assert(rest@ =~= id@.skip(n as int));
    parse_i64(string_of(&rest).as_str())
}

/// While nothing runs, the tooltip shows today's booked time and nothing
/// else of the snapshot: two idle snapshots with the same booked time give
/// the same tooltip, whatever their running clock says, and the `{today}`
/// placeholder is filled with today's time as the clock shows it.
pub proof fn law_idle_tooltip_shows_today(lang: Lang, a: &Snapshot, b: &Snapshot)
    requires
        a.status == TrackerStatus::Idle,
        b.status == TrackerStatus::Idle,
        a.today_seconds == b.today_seconds,
    ensures
        tooltip_text(lang, a) == tooltip_text(lang, b),
        tooltip_text(lang, a) == filled(
            translated(lang, "tray.tooltip_idle"@),
            seq![("today"@, hms_text(a.today_seconds as int))],
        ),
{
}

/// While tracking, the tooltip's running clock is the session's elapsed
/// time and its today value the time booked today: the two never swap.
pub proof fn law_active_tooltip_clocks(lang: Lang, s: &Snapshot)
    requires
        s.status != TrackerStatus::Idle,
    ensures
        tooltip_text(lang, s) == filled(
            translated(lang, "tray.tooltip_active"@),
            seq![
                ("name"@, name_or_empty(s.project_name)),
                ("status"@, s.status_label@),
                ("running"@, hms_text(s.elapsed_seconds as int)),
                ("today"@, hms_text(s.today_seconds as int)),
            ],
        ),
{
}

/// The menu bar title: nothing while idle; while tracking the (shortened)
/// project name and the session's elapsed time as a clock, marked while
/// paused; a name that fits stays as it is.
pub proof fn law_title_shows_session_clock(name: Seq<char>, elapsed: i64)
    ensures
        title_text(TrackerStatus::Idle, Some(name), elapsed) is None,
        title_text(TrackerStatus::Running, Some(name), elapsed) == Some(
            shortened(name) + seq![' ', '\u{b7}', ' '] + hms_text(elapsed as int),
        ),
        title_text(TrackerStatus::Paused, Some(name), elapsed) == Some(
            seq!['\u{2016}', ' '] + shortened(name) + seq![' ', '\u{b7}', ' '] + hms_text(elapsed as int),
        ),
        name.len() <= TITLE_NAME_LIMIT ==> shortened(name) == name,
{
    assert(Seq::<char>::empty() + shortened(name) =~= shortened(name));
}

/// The status line: the stopped text while idle, whatever the snapshot's
/// name and clock; the project and its elapsed clock while running.
pub proof fn law_status_line(lang: Lang, name: Seq<char>, other: Seq<char>, elapsed: i64, other_elapsed: i64)
    ensures
        status_line_text(lang, TrackerStatus::Idle, name, elapsed) == status_line_text(
            lang,
            TrackerStatus::Idle,
            other,
            other_elapsed,
        ),
        status_line_text(lang, TrackerStatus::Idle, name, elapsed) == translated(lang, "tray.stopped"@),
        status_line_text(lang, TrackerStatus::Running, name, elapsed) == name + seq![' ', '\u{b7}', ' '] + hms_text(
            elapsed as int,
        ),
{
}

/// In the project menu only the running project's item is disabled; every
/// other project is listed by its plain name and can be started.
pub proof fn law_project_items(lang: Lang, snapshot: &Snapshot, id: i64, name: Seq<char>)
    ensures
        project_item(lang, snapshot, id, name).1 == (snapshot.project_id != Some(id)),
        snapshot.project_id != Some(id) ==> project_item(lang, snapshot, id, name).0 == name,
{
}

// ---------- the clock tick ----------

/// How many ticks lie between two full refreshes of menu and windows; in
/// between only the clock in the menu bar moves on.
pub const FULL_REFRESH_EVERY: u32 = 30;

/// What a tick of the menu bar clock does.
#[derive(Debug, Clone, Copy, PartialEq, Eq, Structural)]
pub enum TickAction {
    /// Nothing runs: nothing to update.
    Skip,
    /// Only the clock and the tooltip.
    Clock,
    /// Menu and windows too.
    Full,
}

/// The tick counter after a tick: unchanged while idle, else one more,
/// wrapping around at the end of its range.
pub open spec fn next_tick(status: TrackerStatus, ticks: u32) -> u32 {
    if status == TrackerStatus::Idle {
        ticks
    } else if ticks == u32::MAX {
        0
    } else {
        (ticks + 1) as u32
    }
}

/// A tick: idle skips, otherwise every `FULL_REFRESH_EVERY`-th counted tick
/// refreshes everything and the others only the clock. Returns the new
/// counter and the action.
pub fn tick(status: TrackerStatus, ticks: u32) -> (r: (u32, TickAction))
    ensures
        r.0 == next_tick(status, ticks),
        r.1 == if status == TrackerStatus::Idle {
            TickAction::Skip
        } else if r.0 % FULL_REFRESH_EVERY == 0 {
            TickAction::Full
        } else {
            TickAction::Clock
        },
{
    if status == TrackerStatus::Idle {
        return (ticks, TickAction::Skip);
    }
    let next = if ticks == u32::MAX {
        0
    } else {
        ticks + 1
    };
    (next, if next % FULL_REFRESH_EVERY == 0 {
        TickAction::Full
    } else {
        TickAction::Clock
    })
}

} // verus!
