//! The registry of decoders: classification in a fixed priority order, and
//! routing of a classified payload to its decoder.
use vstd::prelude::*;
use crate::dns::{dns_class, dns_model, DNSType, DNSValue};
use crate::ssh::{ssh_class, SSHType};
use crate::util::ParseError;

verus! {

/// A decoder of one protocol family.
pub trait KnownProtocol {
    /// Decides whether the payload belongs to this family.
    fn classify_proto(payload: Vec<u8>) -> Result<ProtocolType, ClassifyError>;

    /// Decodes a payload of this family.
    fn extract_info(&self, payload: Vec<u8>) -> AnalysisOutcome;
}

/// The protocol family of a payload, with its subtype where it has one.
#[derive(Debug, Clone, Copy, PartialEq, Eq, Structural)]
pub enum ProtocolType {
    DNS(DNSType),
    SSH,
}

/// Why a payload was not classified.
#[derive(Debug, Clone, Copy, PartialEq, Eq, Structural)]
pub enum ClassifyError {
    /// Too few bytes to look at the marker bytes.
    Truncated,
    /// No decoder recognised the payload.
    Unrecognized,
}

/// A decoded record.
#[derive(Debug, Clone, PartialEq, Eq)]
pub enum ExtractedInfo {
    DNSQuery(DNSValue),
}

/// What the analysis of one payload came to.
#[derive(Debug, Clone, PartialEq, Eq)]
pub enum AnalysisOutcome {
    /// The payload was recognised but could not be decoded.
    ParseFailed(ParseError),
    /// No decoder recognised the payload.
    Unrecognized,
    /// The payload was recognised; its family or subtype is not decoded.
    RecognizedNoExtraction,
    /// The payload was recognised and decoded.
    Extracted(ExtractedInfo),
}

/// The classification of `s`: the first of the decoders, name service then
/// secure shell, that recognises it; where none does, truncated if one of
/// them had too few bytes to look at, else unrecognised.
pub open spec fn protocol_class(s: Seq<u8>) -> Result<ProtocolType, ClassifyError> {
    match dns_class(s) {
        Ok(t) => Ok(ProtocolType::DNS(t)),
        Err(dns_err) => match ssh_class(s) {
            Ok(p) => Ok(p),
            Err(ssh_err) => if dns_err == ClassifyError::Truncated || ssh_err
                == ClassifyError::Truncated {
                Err(ClassifyError::Truncated)
            } else {
                Err(ClassifyError::Unrecognized)
            },
        },
    }
}

/// What extraction makes of a payload `s` classified as `p`: a query is
/// decoded, or fails as truncated; a response and secure shell are
/// recognised and not decoded.
pub open spec fn extraction_matches(p: ProtocolType, s: Seq<u8>, r: AnalysisOutcome) -> bool {
    match p {
        ProtocolType::DNS(DNSType::Query) => match dns_model(s) {
            Some(m) => r matches AnalysisOutcome::Extracted(ExtractedInfo::DNSQuery(v)) && v@ == m,
            None => r == AnalysisOutcome::ParseFailed(ParseError::Truncated),
        },
        _ => r == AnalysisOutcome::RecognizedNoExtraction,
    }
}

/// Hands the payload to the decoder of the protocol it was classified as.
pub fn extract_info(ptype: ProtocolType, payload: Vec<u8>) -> (r: AnalysisOutcome)
    ensures
        extraction_matches(ptype, payload@, r),
{
    match ptype {
        ProtocolType::DNS(x) => x.extract_info(payload),
        ProtocolType::SSH => SSHType.extract_info(payload),
    }
}

/// Tries the decoders in their order of priority, name service first, and
/// gives the first match.
pub fn match_protocol(payload: Vec<u8>) -> (r: Result<ProtocolType, ClassifyError>)
    ensures
        r == protocol_class(payload@),
        payload@.len() < 4 && ssh_class(payload@) is Err ==> r == Err::<ProtocolType, ClassifyError>(
            ClassifyError::Truncated,
        ),
{
    let probe = payload.clone();
    let dns_err = match DNSType::classify_proto(probe) {
        Ok(x) => {
            return Ok(x);
        },
        Err(e) => e,
    };
    match SSHType::classify_proto(payload) {
        Ok(x) => Ok(x),
        Err(ssh_err) => {
            if dns_err == ClassifyError::Truncated || ssh_err == ClassifyError::Truncated {
                Err(ClassifyError::Truncated)
            } else {
                Err(ClassifyError::Unrecognized)
            }
        },
    }
}

/// Classifies a payload and, where it is recognised, decodes it.
pub fn analyse_payload(payload: Vec<u8>) -> (r: AnalysisOutcome)
    ensures
        match protocol_class(payload@) {
            Ok(p) => extraction_matches(p, payload@, r),
            Err(ClassifyError::Truncated) => r == AnalysisOutcome::ParseFailed(ParseError::Truncated),
            Err(ClassifyError::Unrecognized) => r == AnalysisOutcome::Unrecognized,
        },
{
    match match_protocol(payload.clone()) {
        Ok(p) => extract_info(p, payload),
        Err(ClassifyError::Truncated) => AnalysisOutcome::ParseFailed(ParseError::Truncated),
        Err(ClassifyError::Unrecognized) => AnalysisOutcome::Unrecognized,
    }
}

} // verus!
