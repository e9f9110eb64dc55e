//! CSV export for billing: what goes into the file. Delimiter and decimal
//! separator follow the language (German: semicolon and comma, English:
//! comma and point), so that spreadsheets open the file without an import
//! dialog. The decimal columns (hours, pause minutes) are formatted by the
//! caller from the seconds given here.

use vstd::prelude::*;

use crate::db::{Db, TimeEntry, TimeEntryView};
use crate::error::AppResult;
use crate::i18n::{stored_lang, t, translated, Lang};
use crate::state::{format_hms, hms_text};
use crate::text::{chars_of, owned, string_of, trim, trimmed};

verus! {

/// The field delimiter for a language: `,` (44) in English, `;` (59)
/// otherwise.
pub open spec fn spec_delimiter(lang: Lang) -> u8 {
    if lang == Lang::En {
        44u8
    } else {
        59u8
    }
}

pub fn delimiter(lang: Lang) -> (r: u8)
    ensures
        r == spec_delimiter(lang),
{
    if lang == Lang::En {
        44u8
    } else {
        59u8
    }
}

/// Keys of the header line.
pub open spec fn header_keys() -> Seq<Seq<char>> {
    seq![
        "csv.date"@,
        "csv.project"@,
        "csv.start"@,
        "csv.end"@,
        "csv.duration"@,
        "csv.hours"@,
        "csv.break"@,
        "csv.gesture"@,
    ]
}

/// The header line in a language.
pub fn header(lang: Lang) -> (r: Vec<String>)
    ensures
        r@.len() == header_keys().len(),
        forall|i: int| 0 <= i < r@.len() ==> (#[trigger] r@[i])@ == translated(lang, header_keys()[i]),
{
    vec![
        t(lang, "csv.date"),
        t(lang, "csv.project"),
        t(lang, "csv.start"),
        t(lang, "csv.end"),
        t(lang, "csv.duration"),
        t(lang, "csv.hours"),
        t(lang, "csv.break"),
        t(lang, "csv.gesture"),
    ]
}

/// Date and time of a stored time stamp: split at the first space.
pub open spec fn split_stamp(ts: Seq<char>) -> (Seq<char>, Seq<char>) {
    if exists|i: int| 0 <= i < ts.len() && ts[i] == ' ' {
        let i = choose|i: int| 0 <= i < ts.len() && ts[i] == ' ' && forall|j: int| 0 <= j < i ==> ts[j] != ' ';
        (ts.take(i), ts.skip(i + 1))
    } else {
        (ts, Seq::empty())
    }
}

fn split_ts(ts: &str) -> (r: (String, String))
    ensures
        (r.0@, r.1@) == split_stamp(ts@),
{
    let chars = chars_of(ts);
    let mut i: usize = 0;
    while i < chars.len()
        invariant
            i <= chars@.len(),
            chars@ == ts@,
            forall|j: int| 0 <= j < i ==> chars@[j] != ' ',
        decreases chars.len() - i,
    {
        if chars[i] == ' ' {
            let mut date: Vec<char> = Vec::new();
            let mut k: usize = 0;
            while k < i
                invariant
                    k <= i < chars@.len(),
                    date@ == chars@.take(k as int),
                decreases i - k,
            {
                date.push(chars[k]);
                k = k + 1;
                assert(date@ =~= chars@.take(k as int));
            }
            let mut time: Vec<char> = Vec::new();
            let mut m: usize = i + 1;
            while m < chars.len()
                invariant
                    i + 1 <= m <= chars@.len(),
                    time@ == chars@.subrange(i + 1, m as int),
                decreases chars.len() - m,
            {
                time.push(chars[m]);
                m = m + 1;
                assert(time@ =~= chars@.subrange(i + 1, m as int));
            }
            proof {
                let w = choose|w: int| 0 <= w < ts@.len() && ts@[w] == ' ' && forall|j: int| 0 <= j < w ==> ts@[j] != ' ';
                assert(w == i) by {
                    if w < i {
                    } else if w > i {
                        assert(ts@[i as int] == ' ');
                    }
                }
                assert(time@ =~= ts@.skip(i + 1));
            }
            return (string_of(&date), string_of(&time));
        }
        i = i + 1;
    }
    (owned(ts), String::new())
}

/// One line of the export, with the two decimal columns as seconds.
#[derive(Debug)]
pub struct ExportRow {
    pub date: String,
    pub project: String,
    pub start: String,
    pub end: String,
    /// `hh:mm:ss` of the net time.
    pub duration: String,
    /// Net seconds, shown as decimal hours.
    pub duration_seconds: i64,
    /// Pause seconds, shown as whole minutes.
    pub pause_seconds: i64,
    /// Was the entry started by a gesture ("yes"/"no")?
    pub gesture: String,
}

pub struct ExportRowView {
    pub date: Seq<char>,
    pub project: Seq<char>,
    pub start: Seq<char>,
    pub end: Seq<char>,
    pub duration: Seq<char>,
    pub duration_seconds: i64,
    pub pause_seconds: i64,
    pub gesture: Seq<char>,
}

impl View for ExportRow {
    type V = ExportRowView;

    open spec fn view(&self) -> ExportRowView {
        ExportRowView {
            date: self.date@,
            project: self.project@,
            start: self.start@,
            end: self.end@,
            duration: self.duration@,
            duration_seconds: self.duration_seconds,
            pause_seconds: self.pause_seconds,
            gesture: self.gesture@,
        }
    }
}

/// The project name of an entry; a deleted project is named, not left blank.
pub open spec fn shown_project(e: TimeEntryView, lang: Lang) -> Seq<char> {
    if trimmed(e.project_name).len() == 0 {
        translated(lang, "entry.deleted_project"@)
    } else {
        e.project_name
    }
}

/// The line of an entry.
pub open spec fn row_of(e: TimeEntryView, lang: Lang) -> ExportRowView {
    ExportRowView {
        date: split_stamp(e.start_ts).0,
        project: shown_project(e, lang),
        start: split_stamp(e.start_ts).1,
        end: match e.end_ts {
            Some(ts) => split_stamp(ts).1,
            None => translated(lang, "csv.running"@),
        },
        duration: hms_text(e.duration as int),
        duration_seconds: e.duration,
        pause_seconds: e.pause,
        gesture: translated(
            lang,
            if e.by_gesture {
                "csv.yes"@
            } else {
                "csv.no"@
            },
        ),
    }
}

fn project_name(entry: &TimeEntry, lang: Lang) -> (r: String)
    ensures
        r@ == shown_project(entry@, lang),
{
    let t0 = trim(entry.project_name.as_str());
    if t0.as_str().unicode_len() == 0 {
        t(lang, "entry.deleted_project")
    } else {
        owned(entry.project_name.as_str())
    }
}

fn export_row(entry: &TimeEntry, lang: Lang) -> (r: ExportRow)
    ensures
        r@ == row_of(entry@, lang),
{
    let (date, start) = split_ts(entry.start_ts.as_str());
    let end = match &entry.end_ts {
        Some(ts) => split_ts(ts.as_str()).1,
        None => t(lang, "csv.running"),
    };
    ExportRow {
        date,
        project: project_name(entry, lang),
        start,
        end,
        duration: format_hms(entry.duration_seconds),
        duration_seconds: entry.duration_seconds,
        pause_seconds: entry.pause_duration_seconds,
        gesture: t(
            lang,
            if entry.gesture_triggered {
                "csv.yes"
            } else {
                "csv.no"
            },
        ),
    }
}

/// The lines of the given entries, oldest first (the list comes newest
/// first).
pub fn export_rows(entries: &Vec<TimeEntry>, lang: Lang) -> (r: Vec<ExportRow>)
    ensures
        r@.len() == entries@.len(),
        forall|i: int|
            0 <= i < r@.len() ==> (#[trigger] r@[i])@ == row_of(entries@[entries@.len() - 1 - i]@, lang),
{
    let mut rows: Vec<ExportRow> = Vec::new();
    let mut k: usize = entries.len();
    while k > 0
        invariant
            k <= entries@.len(),
            rows@.len() == entries@.len() - k,
            forall|i: int|
                0 <= i < rows@.len() ==> (#[trigger] rows@[i])@ == row_of(entries@[entries@.len() - 1 - i]@, lang),
        decreases k,
    {
        k = k - 1;
        let row = export_row(&entries[k], lang);
        rows.push(row);
    }
    rows
}

/// What goes into the export file: delimiter, header and lines.
pub struct ExportTable {
    pub lang: Lang,
    pub delimiter: u8,
    pub header: Vec<String>,
    pub rows: Vec<ExportRow>,
}

/// The export of a period, optionally of one project, in the stored
/// language.
pub fn export_table(db: &Db, from: &str, to: &str, project_id: Option<i64>) -> (r: AppResult<ExportTable>)
    requires
        db.wf(),
    ensures
        r matches Ok(table) && {
            let lang = stored_lang(db);
            &&& table.lang == lang
            &&& table.delimiter == spec_delimiter(lang)
            &&& table.header@.len() == header_keys().len()
            &&& forall|i: int| 0 <= i < table.header@.len() ==> (#[trigger] table.header@[i])@ == translated(lang, header_keys()[i])
            &&& exists|entries: Seq<TimeEntryView>|
                {
                    &&& #[trigger] crate::db::is_entry_listing(
                        entries,
                        db.entries_v(),
                        db.projects_v(),
                        from@,
                        to@,
                        project_id,
                    )
                    &&& table.rows@.len() == entries.len()
                    &&& forall|i: int|
                        0 <= i < table.rows@.len() ==> (#[trigger] table.rows@[i])@ == row_of(
                            entries[entries.len() - 1 - i],
                            lang,
                        )
                }
        },
{
    let entries = match db.entries_between(from, to, project_id) {
        Ok(v) => v,
        Err(e) => return Err(e),
    };
    let lang = crate::i18n::lang(db);
    let rows = export_rows(&entries, lang);
    let ghost views = entries@.map_values(|e: TimeEntry| e@);
    assert(forall|i: int| 0 <= i < rows@.len() ==> (#[trigger] rows@[i])@ == row_of(views[views.len() - 1 - i], lang));
    Ok(ExportTable { lang, delimiter: delimiter(lang), header: header(lang), rows })
}

// ---------- laws ----------

/// A stamp made of a date without spaces, a space and a time splits into
/// exactly that date and that time.
pub proof fn lemma_split_at_first_space(date: Seq<char>, time: Seq<char>)
    requires
        !date.contains(' '),
    ensures
        split_stamp(date + seq![' '] + time) == (date, time),
{
    let ts = date + seq![' '] + time;
    let n = date.len() as int;
    assert(ts[n] == ' ');
    assert forall|j: int| 0 <= j < n implies ts[j] != ' ' by {
        assert(ts[j] == date[j]);
    }
    let i = choose|i: int| 0 <= i < ts.len() && ts[i] == ' ' && forall|j: int| 0 <= j < i ==> ts[j] != ' ';
    assert(i == n) by {
        if i < n {
            assert(ts[i] == date[i]);
            assert(date.contains(' '));
        } else if i > n {
            assert(ts[n] == ' ');
        }
    }
    assert(ts.take(n) =~= date);
    assert(ts.skip(n + 1) =~= time);
}

/// The columns of a finished entry whose stamps read `D1 T1` and `D2 T2`:
/// the date is `D1`, the start `T1`, and the end the time of day `T2`, never
/// a date; then the project (named when deleted), the net time as a clock,
/// the net and pause seconds as stored, and yes or no for a gesture.
pub proof fn law_export_columns_split_stamps(
    e: TimeEntryView,
    lang: Lang,
    start_date: Seq<char>,
    start_time: Seq<char>,
    end_date: Seq<char>,
    end_time: Seq<char>,
)
    requires
        !start_date.contains(' '),
        !end_date.contains(' '),
        e.start_ts == start_date + seq![' '] + start_time,
        e.end_ts == Some(end_date + seq![' '] + end_time),
    ensures
        row_of(e, lang).date == start_date,
        row_of(e, lang).start == start_time,
        row_of(e, lang).end == end_time,
        row_of(e, lang).project == if trimmed(e.project_name).len() == 0 {
            translated(lang, "entry.deleted_project"@)
        } else {
            e.project_name
        },
        row_of(e, lang).duration == hms_text(e.duration as int),
        row_of(e, lang).duration_seconds == e.duration,
        row_of(e, lang).pause_seconds == e.pause,
        row_of(e, lang).gesture == translated(lang, if e.by_gesture { "csv.yes"@ } else { "csv.no"@ }),
{
    lemma_split_at_first_space(start_date, start_time);
    lemma_split_at_first_space(end_date, end_time);
}

/// An entry still running shows the running word as its end, whatever else
/// it holds; its date and start come from its start stamp all the same.
pub proof fn law_export_running_entry(e: TimeEntryView, lang: Lang, start_date: Seq<char>, start_time: Seq<char>)
    requires
        !start_date.contains(' '),
        e.start_ts == start_date + seq![' '] + start_time,
        e.end_ts is None,
    ensures
        row_of(e, lang).end == translated(lang, "csv.running"@),
        row_of(e, lang).date == start_date,
        row_of(e, lang).start == start_time,
{
    lemma_split_at_first_space(start_date, start_time);
}

/// German files separate fields with `;`, English ones with `,`, so that a
/// spreadsheet in that language opens them as they are.
pub proof fn law_export_delimiter(lang: Lang)
    ensures
        lang == Lang::De ==> spec_delimiter(lang) == 59u8,
        lang == Lang::En ==> spec_delimiter(lang) == 44u8,
{
}

/// The header names the columns in the order of a row: date, project,
/// start, end, duration, hours, break, gesture.
pub proof fn law_export_header_order()
    ensures
        header_keys().len() == 8,
        header_keys()[0] == "csv.date"@,
        header_keys()[1] == "csv.project"@,
        header_keys()[2] == "csv.start"@,
        header_keys()[3] == "csv.end"@,
        header_keys()[4] == "csv.duration"@,
        header_keys()[5] == "csv.hours"@,
        header_keys()[6] == "csv.break"@,
        header_keys()[7] == "csv.gesture"@,
{
}

} // verus!
