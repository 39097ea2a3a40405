//! The ways in which an operation of the manager can fail.

use vstd::prelude::*;
use vstd::string::*;

verus! {

/// Why an operation did not take place.
#[derive(Debug)]
pub enum ManagerError {
    /// The operation named an id that the registry does not hold.
    NotFound,
    /// No display number was left to hand out.
    ResourceExhausted,
    /// Starting a display or a session failed; the text says how.
    DriverFailure(String),
    /// Writing the snapshot failed; the text says how.
    PersistenceFailure(String),
    /// A record could not be registered beside those already there: its id is
    /// taken, or its display number is not one that the registry handed out
    /// and that is free.
    Conflict,
}

/// The mathematical value of a [`ManagerError`].
pub enum ManagerErrorView {
    NotFound,
    ResourceExhausted,
    DriverFailure(Seq<char>),
    PersistenceFailure(Seq<char>),
    Conflict,
}

impl View for ManagerError {
    type V = ManagerErrorView;

    open spec fn view(&self) -> ManagerErrorView {
        match self {
            ManagerError::NotFound => ManagerErrorView::NotFound,
            ManagerError::ResourceExhausted => ManagerErrorView::ResourceExhausted,
            ManagerError::DriverFailure(text) => ManagerErrorView::DriverFailure(text@),
            ManagerError::PersistenceFailure(text) => ManagerErrorView::PersistenceFailure(text@),
            ManagerError::Conflict => ManagerErrorView::Conflict,
        }
    }
}

impl ManagerErrorView {
    /// The text that tells a caller of the error.
    pub open spec fn message(self) -> Seq<char> {
        match self {
            ManagerErrorView::NotFound => "Sandbox not found"@,
            ManagerErrorView::ResourceExhausted => "No free display number"@,
            ManagerErrorView::DriverFailure(text) => text,
            ManagerErrorView::PersistenceFailure(text) => text,
            ManagerErrorView::Conflict => "Sandbox conflicts with a registered one"@,
        }
    }
}

impl ManagerError {
    /// The text that tells a caller of the error.
    pub fn message(&self) -> (r: String)
        ensures
            r@ == self@.message(),
    {
        match self {
            ManagerError::NotFound => String::from_str("Sandbox not found"),
            ManagerError::ResourceExhausted => String::from_str("No free display number"),
            ManagerError::DriverFailure(text) => text.clone(),
            ManagerError::PersistenceFailure(text) => text.clone(),
            ManagerError::Conflict => String::from_str("Sandbox conflicts with a registered one"),
        }
    }
}

} // verus!
