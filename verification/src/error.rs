//! The error type of the application.
//!
//! Errors carry translation keys rather than finished texts, so that they
//! read in the language that is in force when they are shown.

use vstd::prelude::*;

use crate::i18n::{fill, filled, t, translated, Lang};
use crate::text::owned;

verus! {

/// Error of every operation of the application.
#[derive(Debug)]
pub enum AppError {
    /// A finished text, for messages that are already translated.
    Msg(String),
    /// A translatable message: key plus values for its placeholders.
    Key(&'static str, Vec<(String, String)>),
}

/// What an error says, as plain values.
pub enum ErrorView {
    Msg(Seq<char>),
    Key(Seq<char>, Seq<(Seq<char>, Seq<char>)>),
}

impl View for AppError {
    type V = ErrorView;

    open spec fn view(&self) -> ErrorView {
        match self {
            AppError::Msg(text) => ErrorView::Msg(text@),
            AppError::Key(key, args) => ErrorView::Key(key@, args.deep_view()),
        }
    }
}

/// The error with the given key and no placeholders.
pub open spec fn keyed(key: Seq<char>) -> ErrorView {
    ErrorView::Key(key, Seq::empty())
}

/// The text of an error in the given language.
pub open spec fn error_text(e: ErrorView, lang: Lang) -> Seq<char> {
    match e {
        ErrorView::Msg(text) => text,
        ErrorView::Key(key, args) => filled(translated(lang, key), args),
    }
}

pub type AppResult<T> = Result<T, AppError>;

impl AppError {
    /// A finished text.
    pub fn msg(text: String) -> (r: AppError)
        ensures
            r@ == ErrorView::Msg(text@),
    {
        AppError::Msg(text)
    }

    /// A translated message without placeholders.
    pub fn key(key: &'static str) -> (r: AppError)
        ensures
            r@ == keyed(key@),
    {
        let args: Vec<(String, String)> = Vec::new();
        assert(args.deep_view() =~= Seq::<(Seq<char>, Seq<char>)>::empty());
        AppError::Key(key, args)
    }

    /// A translated message with placeholders.
    pub fn args(key: &'static str, args: &[(&str, String)]) -> (r: AppError)
        ensures
            r@ == ErrorView::Key(key@, args@.map_values(|p: (&str, String)| (p.0@, p.1@))),
    {
        let mut owned_args: Vec<(String, String)> = Vec::new();
        let mut i: usize = 0;
        while i < args.len()
            invariant
                i <= args.len(),
                owned_args.deep_view() == args@.take(i as int).map_values(
                    |p: (&str, String)| (p.0@, p.1@),
                ),
            decreases args.len() - i,
        {
            let ghost before = owned_args.deep_view();
            let name = owned(args[i].0);
            let value = args[i].1.clone();
            owned_args.push((name, value));
            assert(owned_args.deep_view() =~= before.push((args@[i as int].0@, args@[i as int].1@)));
            i = i + 1;
            assert(owned_args.deep_view() =~= args@.take(i as int).map_values(
                |p: (&str, String)| (p.0@, p.1@),
            ));
        }
        assert(args@.take(args.len() as int) =~= args@);
        AppError::Key(key, owned_args)
    }

    /// A translated message with one placeholder.
    pub fn arg(key: &'static str, name: &str, value: String) -> (r: AppError)
        ensures
            r@ == ErrorView::Key(key@, seq![(name@, value@)]),
    {
        let args = vec![(owned(name), value)];
        assert(args.deep_view() =~= seq![(name@, args[0].1@)]);
        AppError::Key(key, args)
    }

    /// The text of the error in the given language.
    pub fn message(&self, lang: Lang) -> (r: String)
        ensures
            r@ == error_text(self@, lang),
    {
        match self {
            AppError::Msg(text) => text.clone(),
            AppError::Key(key, args) => fill(t(lang, key), args),
        }
    }
}

} // verus!
