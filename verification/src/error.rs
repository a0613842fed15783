use vstd::prelude::*;

verus! {

/// Failures surfaced by the package lifecycle.  Every kind is fatal to the
/// command that met it; nothing is retried.
#[derive(Debug)]
pub enum PkgError {
    /// A read, write or archive operation failed; the payload describes it.
    Io(String),
    /// A manifest's JSON text could not be parsed, or a required field was
    /// missing or of the wrong type.
    Parse(String),
    /// A manifest name that is empty or not filesystem-safe.
    InvalidName,
}

impl PkgError {
    /// A short human-readable label for the error kind.
    pub fn describe(&self) -> (r: String)
        ensures
            self is Io ==> r@ == "i/o failure"@,
            self is Parse ==> r@ == "parse failure"@,
            self is InvalidName ==> r@ == "invalid program name"@,
    {
        match self {
            PkgError::Io(_) => "i/o failure".to_owned(),
            PkgError::Parse(_) => "parse failure".to_owned(),
            PkgError::InvalidName => "invalid program name".to_owned(),
        }
    }
}

} // verus!
