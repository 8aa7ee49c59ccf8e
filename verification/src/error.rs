use vstd::prelude::*;

verus! {

/// The ways reading an archive can fail.
///
/// Truncated frames, bad varints, malformed CIDs and malformed headers are
/// all data errors; a well-formed CARv1 header whose version field is not 1
/// is unsupported rather than malformed.
#[derive(Debug, Clone, Copy, PartialEq, Eq, Structural)]
pub enum CarError {
    /// The byte stream does not follow the CAR grammar.
    InvalidData,
    /// The CARv1 header decoded, but carries this version instead of 1.
    UnsupportedCarVersion(u64),
}

impl CarError {
    /// A short human-readable description, for callers that print errors.
    pub fn message(&self) -> (r: String)
        ensures
            match self {
                CarError::InvalidData => r@ == "invalid CAR data"@,
                CarError::UnsupportedCarVersion(_) => r@ == "unsupported CAR version"@,
            },
    {
        match self {
            CarError::InvalidData => "invalid CAR data".to_owned(),
            CarError::UnsupportedCarVersion(_) => "unsupported CAR version".to_owned(),
        }
    }
}

} // verus!
