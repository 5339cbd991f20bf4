//! The run's error taxonomy. Every error arising inside the
//! unify -> reconcile -> write pipeline is fatal: the run aborts on the
//! first one, and none is downgraded or retried.

use vstd::prelude::*;
use vstd::string::StringExecFns;

verus! {

/// A fatal error of the merge run. Each variant carries enough to name
/// the offending input in a diagnostic.
#[derive(Debug)]
pub enum Error {
    /// An input path named on the command line does not exist.
    FileNotFound(String),
    /// An input path's extension is missing or names no known format.
    UnsupportedFileType(String),
    /// A file could not be opened or its schema could not be parsed
    /// during unification.
    SchemaExtractionFailure(String),
    /// Two input files give the same field name two different types,
    /// under the conflict policy that refuses that.
    SchemaConflict(String),
    /// Reconciliation would have to synthesize a column of a composite
    /// kind (list, struct, union, dictionary, map), which is unsupported.
    UnsupportedColumnType(String),
    /// The output path already exists; the writer never overwrites.
    OutputAlreadyExists(String),
    /// An I/O failure while appending a batch or finalizing the output.
    WriteFailure(String),
}

impl Error {
    /// A human-readable description of the error, for the caller to print.
    pub fn describe(&self) -> (msg: String)
        ensures
            msg@ == match self {
                Error::FileNotFound(p) => "input file not found: "@ + p@,
                Error::UnsupportedFileType(p) => "unsupported file type: "@ + p@,
                Error::SchemaExtractionFailure(p) => "could not extract a schema from: "@ + p@,
                Error::SchemaConflict(n) => "conflicting types for field: "@ + n@,
                Error::UnsupportedColumnType(n) => "cannot synthesize a composite column: "@ + n@,
                Error::OutputAlreadyExists(p) => "output file already exists: "@ + p@,
                Error::WriteFailure(p) => "could not write output: "@ + p@,
            },
    {
        proof {
            reveal_strlit("input file not found: ");
            reveal_strlit("unsupported file type: ");
            reveal_strlit("could not extract a schema from: ");
            reveal_strlit("conflicting types for field: ");
            reveal_strlit("cannot synthesize a composite column: ");
            reveal_strlit("output file already exists: ");
            reveal_strlit("could not write output: ");
        }
        let (mut msg, detail): (String, &String) = match self {
            Error::FileNotFound(p) => (String::from_str("input file not found: "), p),
            Error::UnsupportedFileType(p) => (String::from_str("unsupported file type: "), p),
            Error::SchemaExtractionFailure(p) => (
                String::from_str("could not extract a schema from: "),
                p,
            ),
            Error::SchemaConflict(n) => (String::from_str("conflicting types for field: "), n),
            Error::UnsupportedColumnType(n) => (
                String::from_str("cannot synthesize a composite column: "),
                n,
            ),
            Error::OutputAlreadyExists(p) => (String::from_str("output file already exists: "), p),
            Error::WriteFailure(p) => (String::from_str("could not write output: "), p),
        };
        msg.append(detail.as_str());
        msg
    }
}

} // verus!
