//! Custom gestures and the recorded samples the recognition is trained on.

use vstd::prelude::*;

use super::AppState;
use crate::db::{
    custom_gesture_created, custom_gesture_deleted, custom_gesture_updated, gesture_joined, gesture_with,
    is_count_table, kept, sample_count, samples_added, samples_of_version, survives_clear, CustomGesture,
    Db, GestureSample, SampleView,
};
use crate::error::{keyed, AppError, AppResult, ErrorView};
use crate::i18n::{translated, CurrentLang};
use crate::state::{
    action_named, custom_key, custom_key_id, custom_sample_key, gesture_named, parse_custom_action,
    parse_custom_sample_key, parse_gesture, CustomAction, Gesture, FEATURE_LEN, FEATURE_VERSION, KEY_USE_TRAINING,
};
use crate::text::{digits, nat_text, owned, str_eq};

verus! {

/// How many samples a gesture needs for the training to be of use.
pub const MIN_SAMPLES: i64 = 8;

/// One choice in the list of actions a custom gesture can trigger.
#[derive(Debug)]
pub struct ActionOption {
    pub key: &'static str,
    /// Label in the current language.
    pub label: String,
    /// Does this action need a project?
    pub needs_project: bool,
}

/// The actions in the order the interface lists them.
pub open spec fn action_list() -> Seq<CustomAction> {
    seq![
        CustomAction::Start,
        CustomAction::Stop,
        CustomAction::Pause,
        CustomAction::Resume,
        CustomAction::Slot1,
        CustomAction::Slot2,
        CustomAction::Project,
    ]
}

/// `o` offers action `a`.
pub open spec fn offers(o: ActionOption, a: CustomAction, lang: crate::i18n::Lang) -> bool {
    &&& o.key@ == a.spec_key()
    &&& o.label@ == translated(lang, a.label_key())
    &&& o.needs_project == (a == CustomAction::Project)
}

fn action_option(current_lang: &CurrentLang, a: CustomAction) -> (r: ActionOption)
    ensures
        offers(r, a, current_lang.lang),
{
    ActionOption { key: a.key(), label: a.label(current_lang), needs_project: a == CustomAction::Project }
}

/// The list of actions for the interface, so that the vocabulary stands in
/// one place only.
pub fn custom_gesture_actions(current_lang: &CurrentLang) -> (r: Vec<ActionOption>)
    ensures
        r@.len() == action_list().len(),
        forall|i: int| 0 <= i < r@.len() ==> offers(#[trigger] r@[i], action_list()[i], current_lang.lang),
{
    let r = vec![
        action_option(current_lang, CustomAction::Start),
        action_option(current_lang, CustomAction::Stop),
        action_option(current_lang, CustomAction::Pause),
        action_option(current_lang, CustomAction::Resume),
        action_option(current_lang, CustomAction::Slot1),
        action_option(current_lang, CustomAction::Slot2),
        action_option(current_lang, CustomAction::Project),
    ];
    r
}

/// Why an action (with its project) is refused, if it is.
pub open spec fn action_problem(action: Seq<char>, project_id: Option<i64>) -> Option<ErrorView> {
    match action_named(action) {
        None => Some(ErrorView::Key("gesture.action_unknown"@, seq![("name"@, action)])),
        Some(a) => if a == CustomAction::Project && project_id is None {
            Some(keyed("gesture.action_needs_project"@))
        } else {
            None
        },
    }
}

/// Checks an action and, for "start a project", that a project is named.
pub fn check_action(action: &str, project_id: Option<i64>) -> (r: AppResult<()>)
    ensures
        match r {
            Ok(()) => action_problem(action@, project_id) is None,
            Err(e) => action_problem(action@, project_id) == Some(e@),
        },
{
    let parsed = parse_custom_action(action)?;
    if parsed == CustomAction::Project && project_id.is_none() {
        return Err(AppError::key("gesture.action_needs_project"));
    }
    Ok(())
}

/// `v` lists the custom gestures of `db`, with their project names.
pub open spec fn lists_gestures(v: Seq<CustomGesture>, db: &Db) -> bool {
    &&& v.len() == db.gestures_v().len()
    &&& forall|i: int| 0 <= i < v.len() ==> (#[trigger] v[i])@ == gesture_joined(db.gestures_v()[i], db.projects_v())
}

/// The training is complete when every built-in gesture has enough samples
/// of the current feature set.
pub open spec fn training_complete(samples: Seq<SampleView>) -> bool {
    forall|g: Gesture| sample_count(samples, FEATURE_VERSION, #[trigger] g.spec_key()) >= MIN_SAMPLES
}

/// What the training screen shows.
#[derive(Debug)]
pub struct GestureTraining {
    /// The feature set the samples belong to.
    pub version: i64,
    pub samples: Vec<GestureSample>,
    /// Samples per gesture, for display.
    pub counts: Vec<(String, i64)>,
    /// Has every built-in gesture enough samples?
    pub complete: bool,
}

/// `t` shows the training state of `db`.
pub open spec fn shows_training(t: &GestureTraining, db: &Db) -> bool {
    &&& t.version == FEATURE_VERSION
    &&& t.samples@.map_values(|g: GestureSample| (g.gesture@, g.features@)) == samples_of_version(
        db.samples_v(),
        FEATURE_VERSION,
    )
    &&& is_count_table(t.counts@.map_values(|p: (String, i64)| (p.0@, p.1)), db.samples_v(), FEATURE_VERSION)
    &&& t.complete == training_complete(db.samples_v())
}

/// The count of `key` in a count table; 0 when it is not listed.
fn count_in(counts: &Vec<(String, i64)>, key: &str) -> (r: i64)
    ensures
        (exists|i: int| 0 <= i < counts@.len() && counts@[i].0@ == key@ && r == counts@[i].1) || (r == 0 && forall|
            i: int,
        |
            0 <= i < counts@.len() ==> (#[trigger] counts@[i]).0@ != key@),
{
    let mut i: usize = 0;
    while i < counts.len()
        invariant
            i <= counts.len(),
            forall|j: int| 0 <= j < i ==> (#[trigger] counts@[j]).0@ != key@,
        decreases counts.len() - i,
    {
        if str_eq(counts[i].0.as_str(), key) {
            return counts[i].1;
        }
        i = i + 1;
    }
    0
}

proof fn lemma_count_in_table(
    table: Seq<(Seq<char>, i64)>,
    counts: Seq<(String, i64)>,
    samples: Seq<SampleView>,
    key: Seq<char>,
    c: i64,
)
    requires
        table == counts.map_values(|p: (String, i64)| (p.0@, p.1)),
        is_count_table(table, samples, FEATURE_VERSION),
        (exists|i: int| 0 <= i < counts.len() && counts[i].0@ == key && c == counts[i].1) || (c == 0 && forall|i: int|
            0 <= i < counts.len() ==> (#[trigger] counts[i]).0@ != key),
    ensures
        c == sample_count(samples, FEATURE_VERSION, key),
{
    if exists|i: int| 0 <= i < counts.len() && counts[i].0@ == key && c == counts[i].1 {
        let i = choose|i: int| 0 <= i < counts.len() && counts[i].0@ == key && c == counts[i].1;
        assert(table[i] == (counts[i].0@, counts[i].1));
    } else {
        assert forall|j: int| 0 <= j < samples.len() && (#[trigger] samples[j]).version == FEATURE_VERSION implies samples[j].gesture
            != key by {
            if samples[j].gesture == key {
                let i = choose|i: int| 0 <= i < table.len() && table[i].0 == samples[j].gesture;
                assert(table[i] == (counts[i].0@, counts[i].1));
            }
        }
        crate::db::lemma_sample_count_absent(samples, FEATURE_VERSION, key);
    }
}

/// The training state of the database.
pub fn training(db: &Db) -> (r: AppResult<GestureTraining>)
    requires
        db.wf(),
    ensures
        r matches Ok(t) && shows_training(&t, db),
{
    let counts = db.gesture_sample_counts(FEATURE_VERSION)?;
    let ghost table = counts@.map_values(|p: (String, i64)| (p.0@, p.1));
    let ghost s = db.samples_v();
    let c1 = count_in(&counts, Gesture::OpenHand.key());
    let c2 = count_in(&counts, Gesture::Fist.key());
    let c3 = count_in(&counts, Gesture::ThumbUp.key());
    let c4 = count_in(&counts, Gesture::OneFinger.key());
    let c5 = count_in(&counts, Gesture::TwoFingers.key());
    proof {
        lemma_count_in_table(table, counts@, s, Gesture::OpenHand.spec_key(), c1);
        lemma_count_in_table(table, counts@, s, Gesture::Fist.spec_key(), c2);
        lemma_count_in_table(table, counts@, s, Gesture::ThumbUp.spec_key(), c3);
        lemma_count_in_table(table, counts@, s, Gesture::OneFinger.spec_key(), c4);
        lemma_count_in_table(table, counts@, s, Gesture::TwoFingers.spec_key(), c5);
    }
    let complete = c1 >= MIN_SAMPLES && c2 >= MIN_SAMPLES && c3 >= MIN_SAMPLES && c4 >= MIN_SAMPLES && c5
        >= MIN_SAMPLES;
    assert(complete == training_complete(s)) by {
        if complete {
            assert forall|g: Gesture| sample_count(s, FEATURE_VERSION, #[trigger] g.spec_key()) >= MIN_SAMPLES by {
                match g {
                    Gesture::OpenHand => {},
                    Gesture::Fist => {},
                    Gesture::ThumbUp => {},
                    Gesture::OneFinger => {},
                    Gesture::TwoFingers => {},
                }
            }
        } else {
            if c1 < MIN_SAMPLES {
                assert(sample_count(s, FEATURE_VERSION, Gesture::OpenHand.spec_key()) < MIN_SAMPLES);
            } else if c2 < MIN_SAMPLES {
                assert(sample_count(s, FEATURE_VERSION, Gesture::Fist.spec_key()) < MIN_SAMPLES);
            } else if c3 < MIN_SAMPLES {
                assert(sample_count(s, FEATURE_VERSION, Gesture::ThumbUp.spec_key()) < MIN_SAMPLES);
            } else if c4 < MIN_SAMPLES {
                assert(sample_count(s, FEATURE_VERSION, Gesture::OneFinger.spec_key()) < MIN_SAMPLES);
            } else {
                assert(sample_count(s, FEATURE_VERSION, Gesture::TwoFingers.spec_key()) < MIN_SAMPLES);
            }
        }
    }
    let samples = db.gesture_samples(FEATURE_VERSION)?;
    Ok(GestureTraining { version: FEATURE_VERSION, samples, counts, complete })
}

/// The key samples of a gesture are stored under: a built-in gesture's
/// name, or `custom:<id>` of a custom gesture that exists.
pub open spec fn sample_key_for(db: &Db, name: Seq<char>) -> Result<Seq<char>, ErrorView> {
    match custom_key_id(name) {
        Some(id) => if gesture_with(db.gestures_v(), id) is Some {
            Ok(custom_key(id))
        } else {
            Err(keyed("gesture.custom_gone"@))
        },
        None => match gesture_named(name) {
            Some(g) => Ok(g.spec_key()),
            None => Err(ErrorView::Key("gesture.unknown"@, seq![("name"@, name)])),
        },
    }
}

/// Index of the first sample whose number of values is not the feature
/// length, from `i` on.
pub open spec fn first_wrong_length(samples: Seq<(usize, String)>, i: int) -> Option<int>
    decreases samples.len() - i,
{
    if i < 0 || i >= samples.len() {
        None
    } else if samples[i].0 != FEATURE_LEN {
        Some(i)
    } else {
        first_wrong_length(samples, i + 1)
    }
}

/// Why recorded samples are refused before they are stored, if they are.
pub open spec fn samples_problem(version: i64, samples: Seq<(usize, String)>) -> Option<ErrorView> {
    if version != FEATURE_VERSION {
        Some(keyed("gesture.feature_mismatch"@))
    } else if samples.len() == 0 {
        Some(keyed("gesture.no_samples"@))
    } else {
        match first_wrong_length(samples, 0) {
            Some(b) => Some(
                ErrorView::Key(
                    "gesture.feature_count"@,
                    seq![("found"@, digits(samples[b].0 as nat)), ("expected"@, digits(FEATURE_LEN as nat))],
                ),
            ),
            None => None,
        }
    }
}

/// The feature texts of recorded samples.
pub open spec fn feature_texts(samples: Seq<(usize, String)>) -> Seq<Seq<char>> {
    samples.map_values(|p: (usize, String)| p.1@)
}

impl AppState {
    /// Checks the name of a recording: a known built-in gesture, or a
    /// custom gesture that exists.
    pub fn resolve_sample_key(&self, gesture: &str) -> (r: AppResult<String>)
        requires
            self.wf(),
        ensures
            match r {
                Ok(k) => sample_key_for(&self.db, gesture@) == Ok::<Seq<char>, ErrorView>(k@),
                Err(e) => sample_key_for(&self.db, gesture@) == Err::<Seq<char>, ErrorView>(e@),
            },
    {
        if let Some(id) = parse_custom_sample_key(gesture) {
            match self.db.custom_gesture(id) {
                Ok(Some(_)) => {},
                _ => return Err(AppError::key("gesture.custom_gone")),
            }
            return Ok(custom_sample_key(id));
        }
        let g = parse_gesture(gesture)?;
        Ok(owned(g.key()))
    }

    /// Stores the recordings of a gesture (`custom:<id>` for a custom one);
    /// each sample is given as its number of values and its values as JSON.
    pub fn record_gesture_samples(&mut self, gesture: &str, version: i64, samples: &Vec<(usize, String)>) -> (r:
        AppResult<GestureTraining>)
        requires
            old(self).wf(),
        ensures
            final(self).wf(),
            final(self).tracker.session == old(self).tracker.session,
            final(self).current_lang == old(self).current_lang,
            match sample_key_for(&old(self).db, gesture@) {
                Err(e0) => r matches Err(e) && e@ == e0 && final(self).db == old(self).db,
                Ok(key) => match samples_problem(version, samples@) {
                    Some(e0) => r matches Err(e) && e@ == e0 && final(self).db == old(self).db,
                    None => match r {
                        Ok(t) => samples_added(
                            &old(self).db,
                            &final(self).db,
                            key,
                            version,
                            feature_texts(samples@),
                            Ok(samples@.len() as usize),
                        ) && shows_training(&t, &final(self).db),
                        Err(e) => samples_added(
                            &old(self).db,
                            &final(self).db,
                            key,
                            version,
                            feature_texts(samples@),
                            Err(e@),
                        ),
                    },
                },
            },
    {
        let key = self.resolve_sample_key(gesture)?;
        if version != FEATURE_VERSION {
            return Err(AppError::key("gesture.feature_mismatch"));
        }
        if samples.len() == 0 {
            return Err(AppError::key("gesture.no_samples"));
        }
        let mut features: Vec<String> = Vec::new();
        let mut i: usize = 0;
        while i < samples.len()
            invariant
                i <= samples.len(),
                *self == *old(self),
                old(self).wf(),
                version == FEATURE_VERSION,
                samples@.len() > 0,
                sample_key_for(&old(self).db, gesture@) == Ok::<Seq<char>, ErrorView>(key@),
                first_wrong_length(samples@, 0) == first_wrong_length(samples@, i as int),
                features.deep_view() == feature_texts(samples@).take(i as int),
            decreases samples.len() - i,
        {
            if samples[i].0 != FEATURE_LEN {
                let found = nat_text(samples[i].0 as u64);
                let expected = nat_text(FEATURE_LEN as u64);
                let args = vec![(owned("found"), found), (owned("expected"), expected)];
                assert(args.deep_view() =~= seq![
                    ("found"@, digits(samples@[i as int].0 as nat)),
                    ("expected"@, digits(FEATURE_LEN as nat)),
                ]);
                return Err(AppError::Key("gesture.feature_count", args));
            }
            let ghost before = features.deep_view();
            let text = owned(samples[i].1.as_str());
            features.push(text);
            assert(features.deep_view() =~= before.push(samples@[i as int].1@));
            assert(features.deep_view() =~= feature_texts(samples@).take(i + 1));
            i = i + 1;
        }
        assert(feature_texts(samples@).take(samples.len() as int) =~= feature_texts(samples@));
        let _ = self.db.add_gesture_samples(key.as_str(), version, &features)?;
        training(&self.db)
    }

    /// The training state.
    pub fn gesture_training(&self) -> (r: AppResult<GestureTraining>)
        requires
            self.wf(),
        ensures
            r matches Ok(t) && shows_training(&t, &self.db),
    {
        training(&self.db)
    }

    /// Deletes the samples of one gesture, or all of them. An incomplete
    /// training switches back to the geometric rules, so that the
    /// recognition does not get worse without a word.
    pub fn clear_gesture_training(&mut self, gesture: Option<&str>) -> (r: AppResult<GestureTraining>)
        requires
            old(self).wf(),
        ensures
            final(self).wf(),
            final(self).tracker.session == old(self).tracker.session,
            final(self).current_lang == old(self).current_lang,
            match gesture {
                Some(name) if sample_key_for(&old(self).db, name@) is Err => r matches Err(e)
                    && sample_key_for(&old(self).db, name@) == Err::<Seq<char>, ErrorView>(e@) && final(self).db
                    == old(self).db,
                _ => {
                    let key = match gesture {
                        Some(name) => Some(sample_key_for(&old(self).db, name@)->Ok_0),
                        None => None,
                    };
                    &&& final(self).db.samples_v() == kept(
                        old(self).db.samples_v(),
                        |s: SampleView| survives_clear(key, s),
                    )
                    &&& final(self).db.projects_v() == old(self).db.projects_v()
                    &&& final(self).db.entries_v() == old(self).db.entries_v()
                    &&& final(self).db.gestures_v() == old(self).db.gestures_v()
                    &&& final(self).db.next_ids() == old(self).db.next_ids()
                    &&& forall|k: Seq<char>|
                        #[trigger] final(self).db.setting_value(k) == if k == KEY_USE_TRAINING@
                            && !training_complete(final(self).db.samples_v()) {
                            Some("0"@)
                        } else {
                            old(self).db.setting_value(k)
                        }
                    &&& r matches Ok(t) && shows_training(&t, &final(self).db)
                },
            },
    {
        match gesture {
            Some(name) => {
                let key = self.resolve_sample_key(name)?;
                let _ = self.db.clear_gesture_samples(Some(key.as_str()));
            },
            None => {
                let _ = self.db.clear_gesture_samples(None);
            },
        }
        let result = training(&self.db)?;
        if !result.complete {
            let _ = self.db.set_setting(KEY_USE_TRAINING, "0");
        }
        Ok(result)
    }

    /// Creates a custom gesture; returns all custom gestures.
    pub fn create_custom_gesture(&mut self, name: &str, action: &str, project_id: Option<i64>) -> (r: AppResult<
        Vec<CustomGesture>,
    >)
        requires
            old(self).wf(),
        ensures
            final(self).wf(),
            final(self).tracker.session == old(self).tracker.session,
            final(self).current_lang == old(self).current_lang,
            match action_problem(action@, project_id) {
                Some(e0) => r matches Err(e) && e@ == e0 && final(self).db == old(self).db,
                None => match r {
                    Ok(v) => custom_gesture_created(
                        &old(self).db,
                        &final(self).db,
                        name@,
                        action@,
                        project_id,
                        Ok(old(self).db.next_ids().2),
                    ) && lists_gestures(v@, &final(self).db),
                    Err(e) => custom_gesture_created(
                        &old(self).db,
                        &final(self).db,
                        name@,
                        action@,
                        project_id,
                        Err(e@),
                    ),
                },
            },
    {
        check_action(action, project_id)?;
        let _ = self.db.create_custom_gesture(name, action, project_id)?;
        self.db.custom_gestures()
    }

    /// Changes a custom gesture; returns all custom gestures.
    pub fn update_custom_gesture(&mut self, id: i64, name: &str, action: &str, project_id: Option<i64>) -> (r:
        AppResult<Vec<CustomGesture>>)
        requires
            old(self).wf(),
        ensures
            final(self).wf(),
            final(self).tracker.session == old(self).tracker.session,
            final(self).current_lang == old(self).current_lang,
            match action_problem(action@, project_id) {
                Some(e0) => r matches Err(e) && e@ == e0 && final(self).db == old(self).db,
                None => match r {
                    Ok(v) => custom_gesture_updated(&old(self).db, &final(self).db, id, name@, action@, project_id, Ok(()))
                        && lists_gestures(v@, &final(self).db),
                    Err(e) => custom_gesture_updated(
                        &old(self).db,
                        &final(self).db,
                        id,
                        name@,
                        action@,
                        project_id,
                        Err(e@),
                    ),
                },
            },
    {
        check_action(action, project_id)?;
        self.db.update_custom_gesture(id, name, action, project_id)?;
        self.db.custom_gestures()
    }

    /// Deletes a custom gesture with its samples; returns the rest.
    pub fn delete_custom_gesture(&mut self, id: i64) -> (r: AppResult<Vec<CustomGesture>>)
        requires
            old(self).wf(),
        ensures
            final(self).wf(),
            final(self).tracker.session == old(self).tracker.session,
            final(self).current_lang == old(self).current_lang,
            custom_gesture_deleted(&old(self).db, &final(self).db, id, Ok(())),
            r matches Ok(v) && lists_gestures(v@, &final(self).db),
    {
        let _ = self.db.delete_custom_gesture(id);
        self.db.custom_gestures()
    }
}

} // verus!
