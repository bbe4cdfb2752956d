use vstd::prelude::*;
use crate::location::Location;

verus! {

/// The rule that a diagnostic reports on.
#[derive(Debug, Clone, Copy, PartialEq, Eq, Structural)]
pub enum ErrorKind {
    MissingClockSignal,
    MissingIfReset,
    MissingResetSignal,
    InvalidClock,
    InvalidReset,
    InvalidResetNonElaborative,
}

/// A diagnostic: its rule, the offending identifier when there is one, and
/// the span it points at.
#[derive(Debug, Clone, Copy, PartialEq, Eq, Structural)]
pub struct AnalyzerError {
    pub kind: ErrorKind,
    pub identifier: Option<usize>,
    pub location: Location,
}

/// The message that a diagnostic of each kind reports.
pub open spec fn message_of(kind: ErrorKind) -> Seq<char> {
    match kind {
        ErrorKind::MissingClockSignal => "clock signal is required for always_ff statement"@,
        ErrorKind::MissingIfReset => "if_reset statement is required for always_ff with reset signal"@,
        ErrorKind::MissingResetSignal => "reset signal is required for always_ff with if_reset statement"@,
        ErrorKind::InvalidClock => "is not a valid clock"@,
        ErrorKind::InvalidReset => "is not a valid reset"@,
        ErrorKind::InvalidResetNonElaborative => "reset value must be an elaboration-time constant"@,
    }
}

impl AnalyzerError {
    /// The human-readable message of the diagnostic; for an invalid clock or
    /// reset it follows the name of the offending identifier.
    pub fn message(&self) -> (r: &'static str)
        ensures
            r@ == message_of(self.kind),
    {
        match self.kind {
            ErrorKind::MissingClockSignal => "clock signal is required for always_ff statement",
            ErrorKind::MissingIfReset => "if_reset statement is required for always_ff with reset signal",
            ErrorKind::MissingResetSignal => "reset signal is required for always_ff with if_reset statement",
            ErrorKind::InvalidClock => "is not a valid clock",
            ErrorKind::InvalidReset => "is not a valid reset",
            ErrorKind::InvalidResetNonElaborative => "reset value must be an elaboration-time constant",
        }
    }

    pub fn missing_clock_signal(location: Location) -> (r: AnalyzerError)
        ensures
            r == (AnalyzerError { kind: ErrorKind::MissingClockSignal, identifier: None, location }),
    {
        AnalyzerError { kind: ErrorKind::MissingClockSignal, identifier: None, location }
    }

    pub fn missing_if_reset(location: Location) -> (r: AnalyzerError)
        ensures
            r == (AnalyzerError { kind: ErrorKind::MissingIfReset, identifier: None, location }),
    {
        AnalyzerError { kind: ErrorKind::MissingIfReset, identifier: None, location }
    }

    pub fn missing_reset_signal(location: Location) -> (r: AnalyzerError)
        ensures
            r == (AnalyzerError { kind: ErrorKind::MissingResetSignal, identifier: None, location }),
    {
        AnalyzerError { kind: ErrorKind::MissingResetSignal, identifier: None, location }
    }

    pub fn invalid_clock(identifier: usize, location: Location) -> (r: AnalyzerError)
        ensures
            r == (AnalyzerError { kind: ErrorKind::InvalidClock, identifier: Some(identifier), location }),
    {
        AnalyzerError { kind: ErrorKind::InvalidClock, identifier: Some(identifier), location }
    }

    pub fn invalid_reset(identifier: usize, location: Location) -> (r: AnalyzerError)
        ensures
            r == (AnalyzerError { kind: ErrorKind::InvalidReset, identifier: Some(identifier), location }),
    {
        AnalyzerError { kind: ErrorKind::InvalidReset, identifier: Some(identifier), location }
    }

    pub fn invalid_reset_non_elaborative(location: Location) -> (r: AnalyzerError)
        ensures
            r == (AnalyzerError { kind: ErrorKind::InvalidResetNonElaborative, identifier: None, location }),
    {
        AnalyzerError { kind: ErrorKind::InvalidResetNonElaborative, identifier: None, location }
    }
}

} // verus!
