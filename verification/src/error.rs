//! The library's error type.
use vstd::prelude::*;

verus! {

/// What can go wrong when a rule is compiled or checked.
#[derive(Debug, Clone)]
pub enum CoreError {
    InvalidGlob(String),
    InvalidRegex(String),
    Validation(String),
}

/// An error as a mathematical value.
pub enum ErrorView {
    InvalidGlob(Seq<char>),
    InvalidRegex(Seq<char>),
    Validation(Seq<char>),
}

impl View for CoreError {
    type V = ErrorView;

    open spec fn view(&self) -> ErrorView {
        match self {
            CoreError::InvalidGlob(m) => ErrorView::InvalidGlob(m@),
            CoreError::InvalidRegex(m) => ErrorView::InvalidRegex(m@),
            CoreError::Validation(m) => ErrorView::Validation(m@),
        }
    }
}

/// The text that describes an error to a person.
pub open spec fn core_error_text(e: ErrorView) -> Seq<char> {
    match e {
        ErrorView::InvalidGlob(m) => "Invalid glob pattern: "@ + m,
        ErrorView::InvalidRegex(m) => "Invalid regex pattern: "@ + m,
        ErrorView::Validation(m) => "Validation error: "@ + m,
    }
}

impl CoreError {
    /// The text that describes this error to a person.
    pub fn to_message(&self) -> (res: String)
        ensures
            res@ == core_error_text(self@),
    {
        match self {
            CoreError::InvalidGlob(m) => String::from_str("Invalid glob pattern: ").concat(m.as_str()),
            CoreError::InvalidRegex(m) => String::from_str("Invalid regex pattern: ").concat(
                m.as_str(),
            ),
            CoreError::Validation(m) => String::from_str("Validation error: ").concat(m.as_str()),
        }
    }
}

} // verus!
