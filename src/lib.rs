//! Recognition and decoding of application-layer payloads taken from
//! captured network frames.

pub mod dns;
pub mod protocols;
pub mod ssh;
pub mod util;

pub use dns::{analyse_dns_query, is_dns, join_dotted, parse_dns_string, parsed_dns_string_to_real_string, DNSType, DNSValue};
pub use protocols::{analyse_payload, extract_info, match_protocol, AnalysisOutcome, ClassifyError, ExtractedInfo, KnownProtocol, ProtocolType};
pub use ssh::SSHType;
pub use util::{as_u16, be16, ld, take_two_as_u16, ParseError, Stats};
