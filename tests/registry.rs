use packet_inspect::{
    analyse_payload, as_u16, extract_info, ld, match_protocol, take_two_as_u16, AnalysisOutcome,
    ClassifyError, DNSType, ExtractedInfo, KnownProtocol, ParseError, ProtocolType, SSHType, Stats,
};

const GOOGLE_TXT: [u8; 28] = [
    0x10, 0x32, 0x01, 0x00, 0x00, 0x01, 0x00, 0x00, 0x00, 0x00, 0x00, 0x00, 0x06, 0x67, 0x6F,
    0x6F, 0x67, 0x6C, 0x65, 0x03, 0x63, 0x6F, 0x6D, 0x00, 0x00, 0x10, 0x00, 0x01,
];

const NETBSD_A: [u8; 32] = [
    0x75, 0xC0, 0x01, 0x00, 0x00, 0x01, 0x00, 0x00, 0x00, 0x00, 0x00, 0x00, 0x03, 0x77, 0x77,
    0x77, 0x06, 0x6E, 0x65, 0x74, 0x62, 0x73, 0x64, 0x03, 0x6F, 0x72, 0x67, 0x00, 0x00, 0x01,
    0x00, 0x01,
];

#[test]
fn short_payloads_are_truncated() {
    for n in 0..4usize {
        let p = vec![0x41u8; n];
        assert_eq!(match_protocol(p.clone()), Err(ClassifyError::Truncated));
        assert_eq!(analyse_payload(p), AnalysisOutcome::ParseFailed(ParseError::Truncated));
    }
}

#[test]
fn bare_ssh_banner_falls_through_to_ssh() {
    assert_eq!(match_protocol(b"SSH".to_vec()), Ok(ProtocolType::SSH));
    assert_eq!(analyse_payload(b"SSH".to_vec()), AnalysisOutcome::RecognizedNoExtraction);
    assert_eq!(match_protocol(b"SSX".to_vec()), Err(ClassifyError::Truncated));
    assert_eq!(match_protocol(vec![0, 0, 0x81, 0x00]), Err(ClassifyError::Unrecognized));
}

#[test]
fn two_byte_payload_is_truncated() {
    assert_eq!(match_protocol(vec![0x10, 0x32]), Err(ClassifyError::Truncated));
}

#[test]
fn google_query_is_classified_and_decoded() {
    let p = GOOGLE_TXT.to_vec();
    assert_eq!(match_protocol(p.clone()), Ok(ProtocolType::DNS(DNSType::Query)));
    match analyse_payload(p) {
        AnalysisOutcome::Extracted(ExtractedInfo::DNSQuery(v)) => {
            assert_eq!(v.txid, 0x1032);
            assert_eq!(v.flags, 0x0100);
            assert_eq!(v.question_count, 1);
            assert_eq!((v.answer_rrs, v.auth_rrs, v.additional_rrs), (0, 0, 0));
            assert_eq!(v.questions, Some(vec!["google.com".to_string()]));
            assert_eq!(v.question_type, 16);
            assert_eq!(v.question_class, 1);
            assert_eq!(v.remainder, None);
        }
        other => panic!("unexpected outcome {:?}", other),
    }
}

#[test]
fn netbsd_query_is_classified_and_decoded() {
    let p = NETBSD_A.to_vec();
    assert_eq!(match_protocol(p.clone()), Ok(ProtocolType::DNS(DNSType::Query)));
    match extract_info(ProtocolType::DNS(DNSType::Query), p) {
        AnalysisOutcome::Extracted(ExtractedInfo::DNSQuery(v)) => {
            assert_eq!(v.questions, Some(vec!["www.netbsd.org".to_string()]));
            assert_eq!(v.question_type, 1);
        }
        other => panic!("unexpected outcome {:?}", other),
    }
}

#[test]
fn ssh_banner_is_recognised_not_decoded() {
    let p = b"SSH-2.0-OpenSSH_9.6\r\n".to_vec();
    assert_eq!(match_protocol(p.clone()), Ok(ProtocolType::SSH));
    assert_eq!(SSHType::classify_proto(p.clone()), Ok(ProtocolType::SSH));
    assert_eq!(extract_info(ProtocolType::SSH, p.clone()), AnalysisOutcome::RecognizedNoExtraction);
    assert_eq!(analyse_payload(p), AnalysisOutcome::RecognizedNoExtraction);
    assert_eq!(SSHType::classify_proto(b"SS".to_vec()), Err(ClassifyError::Truncated));
}

#[test]
fn dns_response_is_recognised_not_decoded() {
    let mut p = NETBSD_A.to_vec();
    p[2] = 0x81;
    p[3] = 0x80;
    assert_eq!(match_protocol(p.clone()), Ok(ProtocolType::DNS(DNSType::Response)));
    assert_eq!(
        extract_info(ProtocolType::DNS(DNSType::Response), p.clone()),
        AnalysisOutcome::RecognizedNoExtraction
    );
    assert_eq!(analyse_payload(p), AnalysisOutcome::RecognizedNoExtraction);
}

#[test]
fn other_payloads_are_unrecognised() {
    let p = b"GET / HTTP/1.1\r\n".to_vec();
    assert_eq!(match_protocol(p.clone()), Err(ClassifyError::Unrecognized));
    assert_eq!(analyse_payload(p), AnalysisOutcome::Unrecognized);
}

#[test]
fn malformed_query_fails_without_panicking() {
    let p = GOOGLE_TXT[..20].to_vec();
    assert_eq!(analyse_payload(p), AnalysisOutcome::ParseFailed(ParseError::Truncated));
    assert_eq!(
        DNSType::Query.extract_info(GOOGLE_TXT[..14].to_vec()),
        AnalysisOutcome::ParseFailed(ParseError::Truncated)
    );
}

#[test]
fn as_u16_is_big_endian() {
    assert_eq!(as_u16(0x12, 0x34), 0x1234);
    assert_eq!(as_u16(0xFF, 0x00), 0xFF00);
    assert_eq!(as_u16(0x00, 0xFF), 0x00FF);
}

#[test]
fn cursor_reads_hand_back_the_rest() {
    let bytes = [0xAB, 0xCD, 0x01];
    assert_eq!(take_two_as_u16(&bytes), Ok((&bytes[2..], 0xABCD)));
    assert_eq!(take_two_as_u16(&bytes[..1]), Err(ParseError::Truncated));
    let run = [0x02, 7, 8, 9];
    assert_eq!(ld(&run), Ok((&run[3..], &run[1..3])));
    assert_eq!(ld(&[0x04, 1, 2]), Err(ParseError::Truncated));
    assert_eq!(ld(&[]), Err(ParseError::Truncated));
}

#[test]
fn stats_start_at_zero() {
    let s = Stats::new();
    assert_eq!(
        (s.total_packets, s.known_packets, s.unknown_packets, s.errored_packets, s.empty_payload, s.analyzed),
        (0, 0, 0, 0, 0, 0)
    );
}
