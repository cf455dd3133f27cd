use vstd::prelude::*;

verus! {

/// The three severities that the wire document knows.
#[derive(Clone, Copy, Debug, PartialEq, Eq, Structural)]
pub enum StatusLevel {
    OK,
    WARNING,
    ERROR,
}

/// The severities that the parsing engine reports a diagnostic with.
#[derive(Clone, Copy, Debug, PartialEq, Eq, Structural)]
pub enum EngineLevel {
    Bug,
    Fatal,
    PhaseFatal,
    Error,
    Warning,
    Note,
    Help,
    Cancelled,
}

/// A level that has no place in a document: the run cannot go on.
pub open spec fn is_unrecoverable(lvl: EngineLevel) -> bool {
    lvl == EngineLevel::Bug || lvl == EngineLevel::Cancelled
}

/// A level that only annotates another diagnostic.
pub open spec fn is_advisory(lvl: EngineLevel) -> bool {
    lvl == EngineLevel::Help || lvl == EngineLevel::Note
}

pub open spec fn status_of(lvl: EngineLevel) -> StatusLevel
    recommends
        !is_unrecoverable(lvl),
{
    match lvl {
        EngineLevel::Warning => StatusLevel::WARNING,
        EngineLevel::Error | EngineLevel::Fatal | EngineLevel::PhaseFatal => StatusLevel::ERROR,
        _ => StatusLevel::OK,
    }
}

/// Maps an engine level onto the document's severities.
pub fn level_to_status_level(lvl: EngineLevel) -> (r: StatusLevel)
    requires
        !is_unrecoverable(lvl),
    ensures
        r == status_of(lvl),
{
    match lvl {
        EngineLevel::Help | EngineLevel::Note => StatusLevel::OK,
        EngineLevel::Warning => StatusLevel::WARNING,
        EngineLevel::Error | EngineLevel::Fatal | EngineLevel::PhaseFatal => StatusLevel::ERROR,
        EngineLevel::Bug | EngineLevel::Cancelled => StatusLevel::ERROR,
    }
}

} // verus!
