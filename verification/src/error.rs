//! Why interning a grammar fails.

use vstd::prelude::*;
use crate::text::join3;

verus! {

/// The ways in which interning a grammar fails. Each but the first carries
/// the name that did not resolve.
#[derive(Debug, PartialEq, Eq)]
pub enum InternSymbolsError {
    HiddenStartRule,
    Undefined(String),
    UndefinedSupertype(String),
    UndefinedConflict(String),
    UndefinedWordToken(String),
}

/// What a step of interning returns.
pub type InternSymbolsResult<T> = Result<T, InternSymbolsError>;

/// The value of an [`InternSymbolsError`].
pub enum InternSymbolsErrorView {
    HiddenStartRule,
    Undefined(Seq<char>),
    UndefinedSupertype(Seq<char>),
    UndefinedConflict(Seq<char>),
    UndefinedWordToken(Seq<char>),
}

impl InternSymbolsErrorView {
    /// The error as a sentence for the grammar's author.
    pub open spec fn message(self) -> Seq<char> {
        match self {
            InternSymbolsErrorView::HiddenStartRule => "A grammar's start rule must be visible."@,
            InternSymbolsErrorView::Undefined(name) => "Undefined symbol `"@ + name + "`"@,
            InternSymbolsErrorView::UndefinedSupertype(name) => "Undefined symbol `"@ + name
                + "` in grammar's supertypes array"@,
            InternSymbolsErrorView::UndefinedConflict(name) => "Undefined symbol `"@ + name
                + "` in grammar's conflicts array"@,
            InternSymbolsErrorView::UndefinedWordToken(name) => "Undefined symbol `"@ + name
                + "` as grammar's word token"@,
        }
    }
}

impl DeepView for InternSymbolsError {
    type V = InternSymbolsErrorView;

    open spec fn deep_view(&self) -> InternSymbolsErrorView {
        match self {
            InternSymbolsError::HiddenStartRule => InternSymbolsErrorView::HiddenStartRule,
            InternSymbolsError::Undefined(name) => InternSymbolsErrorView::Undefined(name@),
            InternSymbolsError::UndefinedSupertype(name) => InternSymbolsErrorView::UndefinedSupertype(
                name@,
            ),
            InternSymbolsError::UndefinedConflict(name) => InternSymbolsErrorView::UndefinedConflict(
                name@,
            ),
            InternSymbolsError::UndefinedWordToken(name) => InternSymbolsErrorView::UndefinedWordToken(
                name@,
            ),
        }
    }
}

impl View for InternSymbolsError {
    type V = InternSymbolsErrorView;

    open spec fn view(&self) -> InternSymbolsErrorView {
        self.deep_view()
    }
}

impl InternSymbolsError {
    /// The error's message.
    pub fn to_string(&self) -> (text: String)
        ensures
            text@ == self@.message(),
    {
        match self {
            InternSymbolsError::HiddenStartRule => "A grammar's start rule must be visible.".to_owned(),
            InternSymbolsError::Undefined(name) => join3("Undefined symbol `", name.as_str(), "`"),
            InternSymbolsError::UndefinedSupertype(name) => join3(
                "Undefined symbol `",
                name.as_str(),
                "` in grammar's supertypes array",
            ),
            InternSymbolsError::UndefinedConflict(name) => join3(
                "Undefined symbol `",
                name.as_str(),
                "` in grammar's conflicts array",
            ),
            InternSymbolsError::UndefinedWordToken(name) => join3(
                "Undefined symbol `",
                name.as_str(),
                "` as grammar's word token",
            ),
        }
    }
}

/// The value of what an interning step returns.
pub open spec fn outcome<T: DeepView>(result: InternSymbolsResult<T>) -> Result<
    T::V,
    InternSymbolsErrorView,
> {
    match result {
        Ok(value) => Ok(value.deep_view()),
        Err(error) => Err(error@),
    }
}

/// The value of what a lookup of names returns: on failure, the name that
/// did not resolve.
pub open spec fn name_outcome<T: DeepView>(result: Result<T, String>) -> Result<T::V, Seq<char>> {
    match result {
        Ok(value) => Ok(value.deep_view()),
        Err(name) => Err(name@),
    }
}

} // verus!
