//! The settings as the interface reads and writes them.

use vstd::prelude::*;

use super::AppState;
use crate::db::{same_except_settings, Db};
use crate::error::{keyed, AppError, AppResult, ErrorView};
use crate::i18n::{load_current, set_current, stored_lang, Lang};
use crate::state::{
    active_slot, active_slot_of, camera_url_problem, hotkey_of, stored_hotkey, validate_camera_url, CAMERA_SOURCE_BUILTIN,
    CAMERA_SOURCE_NETWORK, DEFAULT_OVERLAY_TIMEOUT_MS, DEFAULT_OVERLAY_TIMEOUT_NETWORK_MS, KEY_CAMERA_SOURCE, KEY_CAMERA_URL, KEY_LANGUAGE, KEY_OVERLAY_TIMEOUT, KEY_OVERLAY_TIMEOUT_NETWORK, KEY_SLOT_1,
    KEY_SLOT_2, KEY_SOUND, KEY_USE_TRAINING,
};
use crate::text::{lower_ascii_text, parse_i64, parsed_i64, str_eq, trim, trimmed};

verus! {

/// The settings the interface shows, apart from the confidence threshold and
/// the state of the hotkey registration.
#[derive(Debug)]
pub struct SettingsValues {
    pub hotkey_combination: String,
    pub overlay_timeout_ms: i64,
    /// Own time window for network cameras.
    pub overlay_timeout_network_ms: i64,
    /// "builtin" or "network".
    pub camera_source: String,
    pub camera_url: String,
    pub sound_cue: bool,
    pub slot_1_project_id: Option<i64>,
    pub slot_2_project_id: Option<i64>,
    pub active_slot: u8,
    /// Do the trained gestures count?
    pub use_training: bool,
    /// "de" or "en".
    pub language: String,
}

/// A stored number, or the default when none or no number is stored.
pub open spec fn number_or(db: &Db, key: Seq<char>, default: i64) -> i64 {
    match db.setting_value(key) {
        Some(raw) => match parsed_i64(raw) {
            Some(v) => v,
            None => default,
        },
        None => default,
    }
}

/// A stored number, if one is stored.
pub open spec fn number_of(db: &Db, key: Seq<char>) -> Option<i64> {
    match db.setting_value(key) {
        Some(raw) => parsed_i64(raw),
        None => None,
    }
}

/// `v` shows the settings of `db`.
pub open spec fn shows_settings(v: &SettingsValues, db: &Db) -> bool {
    &&& v.hotkey_combination@ == hotkey_of(db)
    &&& v.overlay_timeout_ms == number_or(db, KEY_OVERLAY_TIMEOUT@, DEFAULT_OVERLAY_TIMEOUT_MS)
    &&& v.overlay_timeout_network_ms == number_or(db, KEY_OVERLAY_TIMEOUT_NETWORK@, DEFAULT_OVERLAY_TIMEOUT_NETWORK_MS)
    &&& v.camera_source@ == if db.setting_value(KEY_CAMERA_SOURCE@) == Some(CAMERA_SOURCE_NETWORK@) {
        CAMERA_SOURCE_NETWORK@
    } else {
        CAMERA_SOURCE_BUILTIN@
    }
    &&& v.camera_url@ == match db.setting_value(KEY_CAMERA_URL@) {
        Some(url) => url,
        None => Seq::empty(),
    }
    &&& v.sound_cue == (db.setting_value(KEY_SOUND@) != Some("0"@))
    &&& v.slot_1_project_id == number_of(db, KEY_SLOT_1@)
    &&& v.slot_2_project_id == number_of(db, KEY_SLOT_2@)
    &&& v.active_slot == active_slot_of(db)
    &&& v.use_training == (db.setting_value(KEY_USE_TRAINING@) == Some("1"@))
    &&& v.language@ == stored_lang(db).spec_code()
}

fn number_setting(db: &Db, key: &str, default: i64) -> (r: i64)
    requires
        db.wf(),
    ensures
        r == number_or(db, key@, default),
{
    match db.setting(key) {
        Ok(Some(raw)) => match parse_i64(raw.as_str()) {
            Some(v) => v,
            None => default,
        },
        _ => default,
    }
}

fn optional_number(db: &Db, key: &str) -> (r: Option<i64>)
    requires
        db.wf(),
    ensures
        r == number_of(db, key@),
{
    match db.setting(key) {
        Ok(Some(raw)) => parse_i64(raw.as_str()),
        _ => None,
    }
}

/// Is the stored setting exactly `value`?
fn setting_is(db: &Db, key: &str, value: &str) -> (r: bool)
    requires
        db.wf(),
    ensures
        r == (db.setting_value(key@) == Some(value@)),
{
    match db.setting(key) {
        Ok(Some(raw)) => str_eq(raw.as_str(), value),
        _ => false,
    }
}

impl AppState {
    /// The settings for the interface. The language of the messages is
    /// brought in line with the stored one on the way, so that interface and
    /// messages never disagree.
    pub fn get_settings(&mut self) -> (r: SettingsValues)
        requires
            old(self).wf(),
        ensures
            final(self).wf(),
            final(self).db == old(self).db,
            final(self).tracker.session == old(self).tracker.session,
            final(self).lang() == stored_lang(&old(self).db),
            shows_settings(&r, &final(self).db),
    {
        load_current(&mut self.current_lang, &self.db);
        let camera_url = match self.db.setting(KEY_CAMERA_URL) {
            Ok(Some(url)) => url,
            _ => String::new(),
        };
        SettingsValues {
            hotkey_combination: stored_hotkey(&self.db),
            overlay_timeout_ms: number_setting(&self.db, KEY_OVERLAY_TIMEOUT, DEFAULT_OVERLAY_TIMEOUT_MS),
            overlay_timeout_network_ms: number_setting(
                &self.db,
                KEY_OVERLAY_TIMEOUT_NETWORK,
                DEFAULT_OVERLAY_TIMEOUT_NETWORK_MS,
            ),
            camera_source: if setting_is(&self.db, KEY_CAMERA_SOURCE, CAMERA_SOURCE_NETWORK) {
                crate::text::owned(CAMERA_SOURCE_NETWORK)
            } else {
                crate::text::owned(CAMERA_SOURCE_BUILTIN)
            },
            camera_url,
            sound_cue: !setting_is(&self.db, KEY_SOUND, "0"),
            slot_1_project_id: optional_number(&self.db, KEY_SLOT_1),
            slot_2_project_id: optional_number(&self.db, KEY_SLOT_2),
            active_slot: active_slot(&self.db),
            use_training: setting_is(&self.db, KEY_USE_TRAINING, "1"),
            language: crate::text::owned(crate::i18n::lang(&self.db).code()),
        }
    }

    /// Stores a setting, trimmed. A camera address is checked first; a new
    /// language takes effect at once. (A new hotkey is registered by the
    /// caller before it is stored.)
    pub fn set_setting(&mut self, key: &str, value: &str) -> (r: AppResult<()>)
        requires
            old(self).wf(),
        ensures
            final(self).wf(),
            final(self).tracker.session == old(self).tracker.session,
            match r {
                Ok(()) => {
                    &&& (key@ == KEY_CAMERA_URL@ ==> camera_url_problem(value@) is None)
                    &&& same_except_settings(&old(self).db, &final(self).db)
                    &&& forall|k: Seq<char>|
                        #[trigger] final(self).db.setting_value(k) == if k == key@ {
                            Some(trimmed(value@))
                        } else {
                            old(self).db.setting_value(k)
                        }
                    &&& final(self).lang() == if key@ == KEY_LANGUAGE@ {
                        if lower_ascii_text(trimmed(value@)) == "en"@ {
                            Lang::En
                        } else {
                            Lang::De
                        }
                    } else {
                        old(self).lang()
                    }
                },
                Err(e) => key@ == KEY_CAMERA_URL@ && camera_url_problem(value@) == Some(e@) && super::unchanged(
                    old(self),
                    final(self),
                ),
            },
    {
        if str_eq(key, KEY_CAMERA_URL) {
            validate_camera_url(value)?;
        }
        if str_eq(key, KEY_LANGUAGE) {
            set_current(&mut self.current_lang, Lang::parse(value));
        }
        let trimmed_value = trim(value);
        let _ = self.db.set_setting(key, trimmed_value.as_str());
        Ok(())
    }
}

/// Why a camera address cannot be tested, if it cannot.
pub open spec fn test_url_problem(raw: Seq<char>) -> Option<ErrorView> {
    match camera_url_problem(raw) {
        Some(e) => Some(e),
        None => if trimmed(raw).len() == 0 {
            Some(keyed("camera.url_missing"@))
        } else {
            None
        },
    }
}

/// Checks an address for the one-off connection test and gives it back
/// trimmed; the test runs against this address, not the stored one.
pub fn test_camera_url(url: &str) -> (r: AppResult<String>)
    ensures
        match r {
            Ok(u) => test_url_problem(url@) is None && u@ == trimmed(url@),
            Err(e) => test_url_problem(url@) == Some(e@),
        },
{
    validate_camera_url(url)?;
    let t = trim(url);
    if t.as_str().unicode_len() == 0 {
        return Err(AppError::key("camera.url_missing"));
    }
    Ok(t)
}

/// The address of the network camera, if it is the configured source.
pub open spec fn camera_url_of(db: &Db) -> Option<Seq<char>> {
    if db.setting_value(KEY_CAMERA_SOURCE@) != Some(CAMERA_SOURCE_NETWORK@) {
        None
    } else {
        match db.setting_value(KEY_CAMERA_URL@) {
            Some(url) => if trimmed(url).len() > 0 {
                Some(url)
            } else {
                None
            },
            None => None,
        }
    }
}

/// The address of the network camera, if it is the configured source. With
/// the built-in webcam the default path stays without any network.
pub fn configured_camera_url(db: &Db) -> (r: Option<String>)
    requires
        db.wf(),
    ensures
        match r {
            Some(url) => camera_url_of(db) == Some(url@),
            None => camera_url_of(db) is None,
        },
{
    if !setting_is(db, KEY_CAMERA_SOURCE, CAMERA_SOURCE_NETWORK) {
        return None;
    }
    match db.setting(KEY_CAMERA_URL) {
        Ok(Some(url)) => {
            let t = trim(url.as_str());
            if t.as_str().unicode_len() > 0 {
                Some(url)
            } else {
                None
            }
        },
        _ => None,
    }
}

} // verus!
