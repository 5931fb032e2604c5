//! The ways in which a run over a record file can fail.

use vstd::prelude::*;

verus! {

/// Why a run stopped. Every failure ends the run: nothing is retried and no
/// partial result is returned.
#[derive(Clone, Copy, Debug, PartialEq, Eq, Structural)]
pub enum BenchError {
    /// The input file could not be opened or read. The caller that reads the
    /// file returns this; no function of this library does.
    Io,
    /// The input is not a JSON array of records, or a record lacks one of the
    /// seven fields or holds a value of the wrong type in one.
    Format,
    /// A maximum, minimum or record count was asked of no records.
    EmptyCollection,
    /// A maximum or minimum was asked of measurements among which one is not a
    /// number, so that no order exists.
    NotANumber,
}

impl BenchError {
    /// The text of [`BenchError::message`], one sentence per failure kind.
    pub open spec fn message_text(self) -> Seq<char> {
        match self {
            BenchError::Io => "input file could not be read"@,
            BenchError::Format => "input is not a well-formed array of records"@,
            BenchError::EmptyCollection => "aggregate requested over an empty collection"@,
            BenchError::NotANumber => "measurement is not a number"@,
        }
    }

    /// A diagnostic line that names the failure kind.
    pub fn message(&self) -> (out: String)
        ensures
            out@ == self.message_text(),
    {
        match self {
            BenchError::Io => String::from_str("input file could not be read"),
            BenchError::Format => String::from_str("input is not a well-formed array of records"),
            BenchError::EmptyCollection => String::from_str(
                "aggregate requested over an empty collection",
            ),
            BenchError::NotANumber => String::from_str("measurement is not a number"),
        }
    }
}

} // verus!
