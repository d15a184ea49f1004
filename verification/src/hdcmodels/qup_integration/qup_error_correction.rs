use vstd::prelude::*;
use crate::text::prefixed;

verus! {

/// Failures of quantum error correction.
#[derive(Debug)]
pub enum QuantumErrorCorrectionError {
    CorrectionError(String),
    InvalidEncodedData,
}

/// The text shown for an error-correction failure.
pub open spec fn correction_error_text(e: &QuantumErrorCorrectionError) -> Seq<char> {
    match e {
        QuantumErrorCorrectionError::CorrectionError(m) => "Error during quantum error correction: "@ + m@,
        QuantumErrorCorrectionError::InvalidEncodedData => "Invalid encoded data"@,
    }
}

impl QuantumErrorCorrectionError {
    /// The text shown for this failure.
    pub fn to_string(&self) -> (s: String)
        ensures
            s@ == correction_error_text(self),
    {
        match self {
            QuantumErrorCorrectionError::CorrectionError(m) => prefixed(
                "Error during quantum error correction: ",
                m.as_str(),
            ),
            QuantumErrorCorrectionError::InvalidEncodedData => String::from_str("Invalid encoded data"),
        }
    }
}

} // verus!
