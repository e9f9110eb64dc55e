//! The system-wide hotkey: the only way to switch the camera on.
//!
//! Two pitfalls the interface has to show: a combination taken by another
//! application fails to register, which is reported as an error; one taken
//! by the operating system registers but never arrives, which only the
//! "fired" feedback reveals. Registering is the caller's business; this
//! module reads the combination and keeps the status.

use vstd::prelude::*;

use crate::error::{AppError, AppResult, ErrorView};
use crate::i18n::{filled, msg_args, translated, CurrentLang};
use crate::text::{owned, trim, trimmed};

verus! {

/// A key combination as global-hotkey reads it.
#[verifier::external_type_specification]
#[verifier::external_body]
pub struct ExHotKey(global_hotkey::hotkey::HotKey);

/// Why global-hotkey refuses a combination.
#[verifier::external_type_specification]
#[verifier::external_body]
pub struct ExHotKeyParseError(global_hotkey::hotkey::HotKeyParseError);

/// Does global-hotkey accept the text as a key combination?
pub uninterp spec fn hotkey_accepts(text: Seq<char>) -> bool;

/// Wraps `global_hotkey::hotkey::HotKey::from_str`, which reads modifiers
/// and one main key separated by `+`. Whether it succeeds depends on the
/// text alone and is named, not spelled out; the combination it builds is
/// not looked into.
#[verifier::external_body]
fn hotkey_from_str(text: &str) -> (r: Result<global_hotkey::hotkey::HotKey, global_hotkey::hotkey::HotKeyParseError>)
    ensures
        r is Ok == hotkey_accepts(text@),
{
    <global_hotkey::hotkey::HotKey as std::str::FromStr>::from_str(text)
}

/// Reads a key combination; surrounding blanks do not count.
pub fn parse(combination: &str) -> (r: AppResult<global_hotkey::hotkey::HotKey>)
    ensures
        r is Ok == hotkey_accepts(trimmed(combination@)),
        r matches Err(e) ==> e@ == ErrorView::Key("hotkey.invalid"@, seq![("value"@, combination@)]),
{
    let t = trim(combination);
    match hotkey_from_str(t.as_str()) {
        Ok(hotkey) => Ok(hotkey),
        Err(_) => Err(AppError::arg("hotkey.invalid", "value", owned(combination))),
    }
}

/// What the registration achieved.
#[derive(Debug)]
pub struct Status {
    /// The combination actually registered.
    pub active: Option<String>,
    /// Why the last registration failed, if it did.
    pub error: Option<String>,
}

pub open spec fn opt_view(o: Option<String>) -> Option<Seq<char>> {
    match o {
        Some(s) => Some(s@),
        None => None,
    }
}

fn clone_opt(o: &Option<String>) -> (r: Option<String>)
    ensures
        opt_view(r) == opt_view(*o),
{
    match o {
        Some(s) => Some(owned(s.as_str())),
        None => None,
    }
}

/// Holder of the registration status.
pub struct HotkeyStatus {
    status: Status,
}

impl HotkeyStatus {
    pub closed spec fn active(&self) -> Option<Seq<char>> {
        opt_view(self.status.active)
    }

    pub closed spec fn error(&self) -> Option<Seq<char>> {
        opt_view(self.status.error)
    }
}

impl Default for HotkeyStatus {
    fn default() -> (r: Self)
        ensures
            r.active() is None,
            r.error() is None,
    {
        HotkeyStatus { status: Status { active: None, error: None } }
    }
}

impl HotkeyStatus {
    pub fn get(&self) -> (r: Status)
        ensures
            opt_view(r.active) == self.active(),
            opt_view(r.error) == self.error(),
    {
        Status { active: clone_opt(&self.status.active), error: clone_opt(&self.status.error) }
    }

    /// The combination is registered.
    pub fn registered(&mut self, combination: &str)
        ensures
            final(self).active() == Some(trimmed(combination@)),
            final(self).error() is None,
    {
        self.status = Status { active: Some(trim(combination)), error: None };
    }

    /// Registering the combination failed; `restored` is the earlier one if
    /// it could be registered again, so that the user is never left without
    /// a hotkey. Returns the error to report.
    pub fn failed(&mut self, current_lang: &CurrentLang, combination: &str, restored: Option<String>) -> (r: AppError)
        ensures
            r@ == ErrorView::Msg(taken_text(current_lang.lang, combination@)),
            final(self).active() == opt_view(restored),
            final(self).error() == Some(taken_text(current_lang.lang, combination@)),
    {
        let args = vec![(owned("value"), trim(combination))];
        assert(args.deep_view() =~= seq![("value"@, trimmed(combination@))]);
        let message = msg_args(current_lang, "hotkey.taken", &args);
        self.status = Status { active: restored, error: Some(owned(message.as_str())) };
        AppError::msg(message)
    }
}

/// What switching to a combination needs before registering: the new key,
/// and the key to fall back on (the combination active before, when it can
/// be read) should the new one fail to register.
pub struct HotkeySwitch {
    pub key: global_hotkey::hotkey::HotKey,
    pub fallback: Option<(String, global_hotkey::hotkey::HotKey)>,
}

impl HotkeyStatus {
    /// Prepares switching to `combination`: refused when it is not a key
    /// combination; otherwise the fallback is the combination active before,
    /// if any and readable.
    pub fn switch_to(&self, combination: &str) -> (r: AppResult<HotkeySwitch>)
        ensures
            r is Ok == hotkey_accepts(trimmed(combination@)),
            r matches Err(e) ==> e@ == ErrorView::Key("hotkey.invalid"@, seq![("value"@, combination@)]),
            r matches Ok(sw) ==> match sw.fallback {
                Some((text, _)) => self.active() == Some(text@) && hotkey_accepts(trimmed(text@)),
                None => match self.active() {
                    Some(t) => !hotkey_accepts(trimmed(t)),
                    None => true,
                },
            },
    {
        let key = parse(combination)?;
        let fallback = match &self.status.active {
            Some(earlier) => match parse(earlier.as_str()) {
                Ok(k) => Some((owned(earlier.as_str()), k)),
                Err(_) => None,
            },
            None => None,
        };
        Ok(HotkeySwitch { key, fallback })
    }
}

/// The message for a combination that cannot be registered.
pub open spec fn taken_text(lang: crate::i18n::Lang, combination: Seq<char>) -> Seq<char> {
    filled(translated(lang, "hotkey.taken"@), seq![("value"@, trimmed(combination))])
}

} // verus!
