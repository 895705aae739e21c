//! The library's error type.

use vstd::prelude::*;

verus! {

/// What went wrong, by subsystem, with a message.
#[derive(Clone, Debug)]
pub enum AppError {
    AudioSource(String),
    Asr(String),
    Translate(String),
    Config(String),
}

/// An [`AppError`] with its message taken as a character sequence.
pub enum ErrorView {
    AudioSource(Seq<char>),
    Asr(Seq<char>),
    Translate(Seq<char>),
    Config(Seq<char>),
}

impl View for AppError {
    type V = ErrorView;

    open spec fn view(&self) -> ErrorView {
        match self {
            AppError::AudioSource(m) => ErrorView::AudioSource(m@),
            AppError::Asr(m) => ErrorView::Asr(m@),
            AppError::Translate(m) => ErrorView::Translate(m@),
            AppError::Config(m) => ErrorView::Config(m@),
        }
    }
}

/// The message an error carries.
pub open spec fn error_message(e: ErrorView) -> Seq<char> {
    match e {
        ErrorView::AudioSource(m) => m,
        ErrorView::Asr(m) => m,
        ErrorView::Translate(m) => m,
        ErrorView::Config(m) => m,
    }
}

impl AppError {
    /// The message this error carries.
    pub fn message(&self) -> (r: String)
        ensures
            r@ == error_message(self@),
    {
        match self {
            AppError::AudioSource(m) => m.clone(),
            AppError::Asr(m) => m.clone(),
            AppError::Translate(m) => m.clone(),
            AppError::Config(m) => m.clone(),
        }
    }
}

} // verus!
