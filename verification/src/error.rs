use vstd::prelude::*;

verus! {

/// std::io::Error is opaque to the verifier; it is declared here so that
/// `CodeDumpError` can carry it through unchanged.
#[verifier::external_type_specification]
#[verifier::external_body]
pub struct ExIoError(std::io::Error);

/// The error type of a run: an I/O failure carried through from std, or an
/// exclusion glob segment that does not compile (the variant holds the
/// offending segment text, not the whole spec string).
#[derive(Debug)]
pub enum CodeDumpError {
    Io(std::io::Error),
    Pattern(String),
}

impl From<std::io::Error> for CodeDumpError {
    fn from(err: std::io::Error) -> (r: Self) {
        CodeDumpError::Io(err)
    }
}

impl vstd::std_specs::convert::FromSpecImpl<std::io::Error> for CodeDumpError {
    open spec fn obeys_from_spec() -> bool {
        true
    }

    open spec fn from_spec(err: std::io::Error) -> Self {
        CodeDumpError::Io(err)
    }
}

} // verus!
