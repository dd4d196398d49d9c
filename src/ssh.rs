//! The secure-shell decoder: recognised by its banner, not decoded further.
use vstd::prelude::*;
use crate::protocols::{AnalysisOutcome, ClassifyError, KnownProtocol, ProtocolType};

verus! {

/// The secure-shell protocol family, which has no subtype.
#[derive(Debug, Clone, Copy, PartialEq, Eq, Structural)]
pub struct SSHType;

/// How the first three bytes classify `s`: the ASCII text `SSH` is a match;
/// fewer than 3 bytes is truncated.
pub open spec fn ssh_class(s: Seq<u8>) -> Result<ProtocolType, ClassifyError> {
    if s.len() < 3 {
        Err(ClassifyError::Truncated)
    } else if s[0] == 0x53 && s[1] == 0x53 && s[2] == 0x48 {
        Ok(ProtocolType::SSH)
    } else {
        Err(ClassifyError::Unrecognized)
    }
}

impl KnownProtocol for SSHType {
    fn classify_proto(payload: Vec<u8>) -> (r: Result<ProtocolType, ClassifyError>)
        ensures
            r == ssh_class(payload@),
    {
        if payload.len() < 3 {
            return Err(ClassifyError::Truncated);
        }
        if payload[0] == 0x53 && payload[1] == 0x53 && payload[2] == 0x48 {
            Ok(ProtocolType::SSH)
        } else {
            Err(ClassifyError::Unrecognized)
        }
    }

    fn extract_info(&self, payload: Vec<u8>) -> (r: AnalysisOutcome)
        ensures
            r == AnalysisOutcome::RecognizedNoExtraction,
    {
        AnalysisOutcome::RecognizedNoExtraction
    }
}

} // verus!
