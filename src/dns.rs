//! The name-service message decoder: classification by the flags bytes and
//! the parser for a query of one question.
use vstd::prelude::*;
use crate::protocols::{AnalysisOutcome, ClassifyError, ExtractedInfo, KnownProtocol, ProtocolType};
use crate::util::{be16, ld, take_two_as_u16, ParseError};

verus! {

/// The direction of a name-service message.
#[derive(Debug, Clone, Copy, PartialEq, Eq, Structural)]
pub enum DNSType {
    Query,
    Response,
}

/// How the flags bytes at offsets 2 and 3 classify `s`: `0x01 0x00` is a
/// query, `0x81 0x80` a response; fewer than 4 bytes is truncated.
pub open spec fn dns_class(s: Seq<u8>) -> Result<DNSType, ClassifyError> {
    if s.len() < 4 {
        Err(ClassifyError::Truncated)
    } else if s[2] == 0x01 && s[3] == 0x00 {
        Ok(DNSType::Query)
    } else if s[2] == 0x81 && s[3] == 0x80 {
        Ok(DNSType::Response)
    } else {
        Err(ClassifyError::Unrecognized)
    }
}

/// Classifies a payload as a query or a response by its flags bytes.
pub fn is_dns(payload: Vec<u8>) -> (r: Result<DNSType, ClassifyError>)
    ensures
        r == dns_class(payload@),
{
    if payload.len() < 4 {
        return Err(ClassifyError::Truncated);
    }
    if is_dns_query(payload.as_slice()) {
        return Ok(DNSType::Query);
    }
    if is_dns_response(payload.as_slice()) {
        return Ok(DNSType::Response);
    }
    Err(ClassifyError::Unrecognized)
}

fn is_dns_query(payload: &[u8]) -> (r: bool)
    requires
        payload@.len() >= 4,
    ensures
        r == (payload@[2] == 0x01 && payload@[3] == 0x00),
{
    payload[2] == 0x01 && payload[3] == 0x00
}

fn is_dns_response(payload: &[u8]) -> (r: bool)
    requires
        payload@.len() >= 4,
    ensures
        r == (payload@[2] == 0x81 && payload@[3] == 0x80),
{
    payload[2] == 0x81 && payload[3] == 0x80
}

impl KnownProtocol for DNSType {
    fn classify_proto(payload: Vec<u8>) -> (r: Result<ProtocolType, ClassifyError>)
        ensures
            r == match dns_class(payload@) {
                Ok(t) => Ok(ProtocolType::DNS(t)),
                Err(e) => Err(e),
            },
    {
        match is_dns(payload) {
            Ok(t) => Ok(ProtocolType::DNS(t)),
            Err(e) => Err(e),
        }
    }

    fn extract_info(&self, payload: Vec<u8>) -> (r: AnalysisOutcome)
        ensures
            *self == DNSType::Response ==> r == AnalysisOutcome::RecognizedNoExtraction,
            *self == DNSType::Query ==> match dns_model(payload@) {
                Some(m) => r matches AnalysisOutcome::Extracted(ExtractedInfo::DNSQuery(v)) && v@ == m,
                None => r == AnalysisOutcome::ParseFailed(ParseError::Truncated),
            },
    {
        match self {
            DNSType::Query => match analyse_dns_query(payload) {
                Ok(v) => AnalysisOutcome::Extracted(ExtractedInfo::DNSQuery(v)),
                Err(e) => AnalysisOutcome::ParseFailed(e),
            },
            DNSType::Response => AnalysisOutcome::RecognizedNoExtraction,
        }
    }
}

/// A decoded query: the fixed envelope, the question name, the question
/// tail, and whatever followed the question, verbatim.
#[derive(Debug, Clone, PartialEq, Eq)]
pub struct DNSValue {
    pub txid: u16,
    pub flags: u16,
    pub question_count: u16,
    pub answer_rrs: u16,
    pub auth_rrs: u16,
    pub additional_rrs: u16,
    pub questions: Option<Vec<String>>,
    pub answers: Option<Vec<String>>,
    pub question_type: u16,
    pub question_class: u16,
    pub remainder: Option<Vec<u8>>,
}

/// What a `DNSValue` holds, with texts and byte runs as sequences.
pub struct DnsView {
    pub txid: u16,
    pub flags: u16,
    pub question_count: u16,
    pub answer_rrs: u16,
    pub auth_rrs: u16,
    pub additional_rrs: u16,
    pub questions: Option<Seq<Seq<char>>>,
    pub answers: Option<Seq<Seq<char>>>,
    pub question_type: u16,
    pub question_class: u16,
    pub remainder: Option<Seq<u8>>,
}

/// The texts of an optional list of strings.
pub open spec fn opt_string_views(v: Option<Vec<String>>) -> Option<Seq<Seq<char>>> {
    match v {
        Some(x) => Some(string_views(x@)),
        None => None,
    }
}

impl View for DNSValue {
    type V = DnsView;

    open spec fn view(&self) -> DnsView {
        DnsView {
            txid: self.txid,
            flags: self.flags,
            question_count: self.question_count,
            answer_rrs: self.answer_rrs,
            auth_rrs: self.auth_rrs,
            additional_rrs: self.additional_rrs,
            questions: opt_string_views(self.questions),
            answers: opt_string_views(self.answers),
            question_type: self.question_type,
            question_class: self.question_class,
            remainder: match self.remainder {
                Some(r) => Some(r@),
                None => None,
            },
        }
    }
}

/// The message that the bytes `s` decode to: a 12-byte envelope of six
/// big-endian fields, a name section, a 4-byte question tail, and the rest.
/// `None` where the bytes run out before the tail ends.
pub open spec fn dns_model(s: Seq<u8>) -> Option<DnsView> {
    if s.len() < 12 {
        None
    } else {
        match spec_labels(s.subrange(12, s.len() as int)) {
            None => None,
            Some((labels, after)) => if after.len() < 4 {
                None
            } else {
                Some(
                    DnsView {
                        txid: be16(s[0], s[1]),
                        flags: be16(s[2], s[3]),
                        question_count: be16(s[4], s[5]),
                        answer_rrs: be16(s[6], s[7]),
                        auth_rrs: be16(s[8], s[9]),
                        additional_rrs: be16(s[10], s[11]),
                        questions: Some(seq![dotted(label_texts(labels))]),
                        answers: None,
                        question_type: be16(after[0], after[1]),
                        question_class: be16(after[2], after[3]),
                        remainder: if after.len() == 4 {
                            None
                        } else {
                            Some(after.subrange(4, after.len() as int))
                        },
                    },
                )
            },
        }
    }
}

/// The labels of a name section at the front of `s`, and the bytes past its
/// zero terminator; `None` where the bytes run out first.
pub open spec fn spec_labels(s: Seq<u8>) -> Option<(Seq<Seq<u8>>, Seq<u8>)>
    decreases s.len(),
{
    if s.len() == 0 {
        None
    } else if s[0] == 0 {
        Some((Seq::<Seq<u8>>::empty(), s.drop_first()))
    } else if s.len() < 1 + s[0] {
        None
    } else {
        match spec_labels(s.subrange(1 + s[0], s.len() as int)) {
            None => None,
            Some((more, rest)) => Some((seq![s.subrange(1, 1 + s[0])] + more, rest)),
        }
    }
}

/// `r` with the labels `pre` put in front of its labels.
pub open spec fn prepend_labels(
    pre: Seq<Seq<u8>>,
    r: Option<(Seq<Seq<u8>>, Seq<u8>)>,
) -> Option<(Seq<Seq<u8>>, Seq<u8>)> {
    match r {
        None => None,
        Some((ls, rest)) => Some((pre + ls, rest)),
    }
}

/// The byte sequences that the vectors of `v` hold.
pub open spec fn vec_views(v: Seq<Vec<u8>>) -> Seq<Seq<u8>> {
    v.map_values(|x: Vec<u8>| x@)
}

/// Reads a name section: labels up to the zero terminator. Hands back the
/// bytes past the terminator and the labels in the order met.
pub fn parse_dns_string(payload: &[u8]) -> (r: Result<(&[u8], Vec<Vec<u8>>), ParseError>)
    ensures
        match r {
            Ok((rest, labels)) => spec_labels(payload@) == Some((vec_views(labels@), rest@)),
            Err(e) => e == ParseError::Truncated && spec_labels(payload@) is None,
        },
{
    let mut labels: Vec<Vec<u8>> = Vec::new();
    let mut cur: &[u8] = payload;
    loop
        invariant
            spec_labels(payload@) == prepend_labels(vec_views(labels@), spec_labels(cur@)),
        decreases cur@.len(),
    {
        if cur.len() == 0 {
            return Err(ParseError::Truncated);
        }
        if cur[0] == 0 {
            let rest = &cur[1..cur.len()];
            proof {
                assert(vec_views(labels@) + Seq::<Seq<u8>>::empty() =~= vec_views(labels@));
                assert(rest@ =~= cur@.drop_first());
            }
            return Ok((rest, labels));
        }
        match ld(cur) {
            Err(e) => {
                return Err(e);
            },
            Ok((rest, data)) => {
                let ghost before = vec_views(labels@);
                let label = vstd::slice::slice_to_vec(data);
                labels.push(label);
                proof {
                    assert(vec_views(labels@) =~= before + seq![data@]);
                    let tail = spec_labels(rest@);
                    assert(spec_labels(cur@) == prepend_labels(seq![data@], tail));
                    match tail {
                        None => {},
                        Some((ls, r2)) => {
                            assert(before + (seq![data@] + ls) =~= (before + seq![data@]) + ls);
                        },
                    }
                }
                cur = rest;
            },
        }
    }
}

/// Reads the 12-byte envelope: six big-endian 16-bit fields.
pub fn parse_dns_preamble(payload: &[u8]) -> (r: Result<(&[u8], (u16, u16, u16, u16, u16, u16)), ParseError>)
    ensures
        match r {
            Ok((rest, (a, b, c, d, e, f))) => {
                let p = payload@;
                &&& p.len() >= 12
                &&& a == be16(p[0], p[1]) && b == be16(p[2], p[3]) && c == be16(p[4], p[5])
                &&& d == be16(p[6], p[7]) && e == be16(p[8], p[9]) && f == be16(p[10], p[11])
                &&& rest@ == p.subrange(12, p.len() as int)
            },
            Err(e) => e == ParseError::Truncated && payload@.len() < 12,
        },
{
    if payload.len() < 12 {
        return Err(ParseError::Truncated);
    }
    let (p1, a) = take_two_as_u16(payload)?;
    let (p2, b) = take_two_as_u16(p1)?;
    let (p3, c) = take_two_as_u16(p2)?;
    let (p4, d) = take_two_as_u16(p3)?;
    let (p5, e) = take_two_as_u16(p4)?;
    let (p6, f) = take_two_as_u16(p5)?;
    proof {
        assert(p6@ =~= payload@.subrange(12, payload@.len() as int));
    }
    Ok((p6, (a, b, c, d, e, f)))
}

/// Reads the 4-byte question tail: the question type, then its class.
pub fn parse_query_postamble(payload: &[u8]) -> (r: Result<(&[u8], (u16, u16)), ParseError>)
    ensures
        match r {
            Ok((rest, (t, c))) => {
                let p = payload@;
                &&& p.len() >= 4
                &&& t == be16(p[0], p[1]) && c == be16(p[2], p[3])
                &&& rest@ == p.subrange(4, p.len() as int)
            },
            Err(e) => e == ParseError::Truncated && payload@.len() < 4,
        },
{
    if payload.len() < 4 {
        return Err(ParseError::Truncated);
    }
    let (p1, t) = take_two_as_u16(payload)?;
    let (p2, c) = take_two_as_u16(p1)?;
    proof {
        assert(p2@ =~= payload@.subrange(4, payload@.len() as int));
    }
    Ok((p2, (t, c)))
}

/// Decodes a query of one question. Fails, as a whole, where a field or a
/// label needs more bytes than remain.
pub fn analyse_dns_query(payload: Vec<u8>) -> (r: Result<DNSValue, ParseError>)
    ensures
        match r {
            Ok(v) => dns_model(payload@) == Some(v@),
            Err(e) => e == ParseError::Truncated && dns_model(payload@) is None,
        },
{
    let (after_head, head) = match parse_dns_preamble(payload.as_slice()) {
        Ok(x) => x,
        Err(e) => {
            return Err(e);
        },
    };
    let (after_name, labels) = match parse_dns_string(after_head) {
        Ok(x) => x,
        Err(e) => {
            return Err(e);
        },
    };
    let ghost label_seq = vec_views(labels@);
    let (after_tail, tail) = match parse_query_postamble(after_name) {
        Ok(x) => x,
        Err(e) => {
            return Err(e);
        },
    };
    let name = parsed_dns_string_to_real_string(labels);
    let remainder = if after_tail.len() == 0 {
        None
    } else {
        Some(vstd::slice::slice_to_vec(after_tail))
    };
    let questions = vec![name];
    let v = DNSValue {
        txid: head.0,
        flags: head.1,
        question_count: head.2,
        answer_rrs: head.3,
        auth_rrs: head.4,
        additional_rrs: head.5,
        questions: Some(questions),
        answers: None,
        question_type: tail.0,
        question_class: tail.1,
        remainder,
    };
    proof {
        assert(string_views(questions@) =~= seq![dotted(label_texts(label_seq))]);
        let m = dns_model(payload@).unwrap();
        assert(m.remainder == v@.remainder);
        assert(m == v@);
    }
    Ok(v)
}

/// The text that lossy UTF-8 decoding makes of `b`.
pub uninterp spec fn lossy_of(b: Seq<u8>) -> Seq<char>;

/// Relies on `String::from_utf8_lossy`: the text it makes of a byte run
/// depends on those bytes alone.
#[verifier::external_body]
fn lossy_text(b: &[u8]) -> (r: String)
    ensures
        r@ == lossy_of(b@),
{
    String::from_utf8_lossy(b).into_owned()
}

/// The texts of the labels `ls`, in order.
pub open spec fn label_texts(ls: Seq<Seq<u8>>) -> Seq<Seq<char>> {
    ls.map_values(|l: Seq<u8>| lossy_of(l))
}

/// The parts joined by single dots, in order; empty where there is no part.
pub open spec fn dotted(parts: Seq<Seq<char>>) -> Seq<char>
    decreases parts.len(),
{
    if parts.len() == 0 {
        Seq::<char>::empty()
    } else if parts.len() == 1 {
        parts[0]
    } else {
        dotted(parts.drop_last()) + seq!['.'] + parts.last()
    }
}

/// The texts that the strings of `v` hold.
pub open spec fn string_views(v: Seq<String>) -> Seq<Seq<char>> {
    v.map_values(|x: String| x@)
}

/// Joins the parts with single dots between them.
pub fn join_dotted(parts: &Vec<String>) -> (r: String)
    ensures
        r@ == dotted(string_views(parts@)),
{
    let mut r = String::new();
    let n = parts.len();
    if n == 0 {
        return r;
    }
    r.append(parts[0].as_str());
    let mut i: usize = 1;
    proof {
        assert(string_views(parts@).subrange(0, 1) =~= seq![parts@[0]@]);
    }
    while i < n
        invariant
            1 <= i <= n,
            n == parts@.len(),
            r@ == dotted(string_views(parts@).subrange(0, i as int)),
        decreases n - i,
    {
        let ghost prev = r@;
        r.append(".");
        r.append(parts[i].as_str());
        proof {
            reveal_strlit(".");
            let sub = string_views(parts@).subrange(0, i + 1);
            assert(sub.drop_last() =~= string_views(parts@).subrange(0, i as int));
            assert(sub.last() == parts@[i as int]@);
            assert(r@ =~= prev + seq!['.'] + parts@[i as int]@);
        }
        i = i + 1;
    }
    proof {
        assert(string_views(parts@).subrange(0, n as int) =~= string_views(parts@));
    }
    r
}

/// Decodes each label as text, lossily, and joins the texts with dots.
pub fn parsed_dns_string_to_real_string(data: Vec<Vec<u8>>) -> (r: String)
    ensures
        r@ == dotted(label_texts(vec_views(data@))),
{
    let mut texts: Vec<String> = Vec::new();
    let mut i: usize = 0;
    while i < data.len()
        invariant
            i <= data@.len(),
            string_views(texts@) =~= label_texts(vec_views(data@)).subrange(0, i as int),
        decreases data@.len() - i,
    {
        let ghost before = texts@;
        let t = lossy_text(data[i].as_slice());
        texts.push(t);
        proof {
            assert(texts@ == before.push(t));
            assert(string_views(texts@) =~= string_views(before).push(t@));
            assert(label_texts(vec_views(data@)).subrange(0, i + 1) =~= label_texts(
                vec_views(data@),
            ).subrange(0, i as int).push(lossy_of(data@[i as int]@)));
        }
        i = i + 1;
    }
    proof {
        assert(label_texts(vec_views(data@)).subrange(0, data@.len() as int) =~= label_texts(vec_views(data@)));
    }
    join_dotted(&texts)
}

/// The two big-endian bytes of `x`.
pub open spec fn be16_bytes(x: u16) -> Seq<u8> {
    seq![(x / 256) as u8, (x % 256) as u8]
}

/// Labels that a name section can carry: each of 1 to 255 bytes.
pub open spec fn labels_encodable(ls: Seq<Seq<u8>>) -> bool {
    forall|i: int| 0 <= i < ls.len() ==> 0 < #[trigger] ls[i].len() < 256
}

/// The name section of the labels `ls`: each label after its length byte,
/// then the zero terminator.
pub open spec fn encode_labels(ls: Seq<Seq<u8>>) -> Seq<u8>
    decreases ls.len(),
{
    if ls.len() == 0 {
        seq![0u8]
    } else {
        seq![ls[0].len() as u8] + ls[0] + encode_labels(ls.drop_first())
    }
}

/// A query message: the envelope fields, the name section of `labels`, the
/// question tail, then `rest`.
pub open spec fn encode_query(
    txid: u16,
    flags: u16,
    question_count: u16,
    answer_rrs: u16,
    auth_rrs: u16,
    additional_rrs: u16,
    labels: Seq<Seq<u8>>,
    question_type: u16,
    question_class: u16,
    rest: Seq<u8>,
) -> Seq<u8> {
    be16_bytes(txid) + be16_bytes(flags) + be16_bytes(question_count) + be16_bytes(answer_rrs)
        + be16_bytes(auth_rrs) + be16_bytes(additional_rrs) + encode_labels(labels) + be16_bytes(
        question_type,
    ) + be16_bytes(question_class) + rest
}

proof fn lemma_be16_bytes(x: u16)
    ensures
        be16(be16_bytes(x)[0], be16_bytes(x)[1]) == x,
{
}

/// A name section followed by any bytes reads back as its labels, with
/// those bytes left over.
pub proof fn lemma_labels_round_trip(ls: Seq<Seq<u8>>, post: Seq<u8>)
    requires
        labels_encodable(ls),
    ensures
        spec_labels(encode_labels(ls) + post) == Some((ls, post)),
    decreases ls.len(),
{
    let s = encode_labels(ls) + post;
    if ls.len() == 0 {
        assert(s.drop_first() =~= post);
    } else {
        let l0 = ls[0];
        let more = ls.drop_first();
        assert(labels_encodable(more)) by {
            assert forall|i: int| 0 <= i < more.len() implies 0 < #[trigger] more[i].len() < 256 by {
                assert(more[i] == ls[i + 1]);
            }
        }
        lemma_labels_round_trip(more, post);
        assert(0 < l0.len() < 256);
        assert(s =~= seq![l0.len() as u8] + l0 + (encode_labels(more) + post));
        assert(s[0] == l0.len() as u8);
        assert(s.subrange(1 + s[0], s.len() as int) =~= encode_labels(more) + post);
        assert(s.subrange(1, 1 + s[0]) =~= l0);
        assert(seq![l0] + more =~= ls);
    }
}

/// Round trip: a query built from envelope fields, encodable labels, a
/// question tail and any further bytes decodes to exactly those fields, the
/// labels' texts joined by dots, and the further bytes (none where empty).
pub proof fn lemma_query_round_trip(
    txid: u16,
    flags: u16,
    question_count: u16,
    answer_rrs: u16,
    auth_rrs: u16,
    additional_rrs: u16,
    labels: Seq<Seq<u8>>,
    question_type: u16,
    question_class: u16,
    rest: Seq<u8>,
)
    requires
        labels_encodable(labels),
    ensures
        dns_model(
            encode_query(
                txid,
                flags,
                question_count,
                answer_rrs,
                auth_rrs,
                additional_rrs,
                labels,
                question_type,
                question_class,
                rest,
            ),
        ) == Some(
            DnsView {
                txid,
                flags,
                question_count,
                answer_rrs,
                auth_rrs,
                additional_rrs,
                questions: Some(seq![dotted(label_texts(labels))]),
                answers: None,
                question_type,
                question_class,
                remainder: if rest.len() == 0 {
                    None
                } else {
                    Some(rest)
                },
            },
        ),
{
    let head = be16_bytes(txid) + be16_bytes(flags) + be16_bytes(question_count) + be16_bytes(
        answer_rrs,
    ) + be16_bytes(auth_rrs) + be16_bytes(additional_rrs);
    let after = be16_bytes(question_type) + be16_bytes(question_class) + rest;
    let s = encode_query(
        txid,
        flags,
        question_count,
        answer_rrs,
        auth_rrs,
        additional_rrs,
        labels,
        question_type,
        question_class,
        rest,
    );
    assert(head.len() == 12);
    assert(s =~= head + (encode_labels(labels) + after));
    assert(s.subrange(12, s.len() as int) =~= encode_labels(labels) + after);
    lemma_labels_round_trip(labels, after);
    lemma_be16_bytes(txid);
    lemma_be16_bytes(flags);
    lemma_be16_bytes(question_count);
    lemma_be16_bytes(answer_rrs);
    lemma_be16_bytes(auth_rrs);
    lemma_be16_bytes(additional_rrs);
    lemma_be16_bytes(question_type);
    lemma_be16_bytes(question_class);
    assert(s[0] == head[0] && s[1] == head[1] && s[2] == head[2] && s[3] == head[3]);
    assert(s[4] == head[4] && s[5] == head[5] && s[6] == head[6] && s[7] == head[7]);
    assert(s[8] == head[8] && s[9] == head[9] && s[10] == head[10] && s[11] == head[11]);
    assert(after.subrange(4, after.len() as int) =~= rest);
}

/// Decoding depends on the bytes alone: any two records that the same bytes
/// decode to are the same record.
pub proof fn lemma_decode_deterministic(s: Seq<u8>, a: DNSValue, b: DNSValue)
    requires
        dns_model(s) == Some(a@),
        dns_model(s) == Some(b@),
    ensures
        a@ == b@,
{
}

/// A name section that is only the zero terminator gives an empty name; the
/// record then has no further bytes exactly when nothing follows the tail.
pub proof fn lemma_empty_name(s: Seq<u8>)
    requires
        s.len() >= 17,
        s[12] == 0,
    ensures
        dns_model(s) is Some,
        dns_model(s).unwrap().questions == Some(seq![Seq::<char>::empty()]),
        dns_model(s).unwrap().remainder is None <==> s.len() == 17,
{
    let t = s.subrange(12, s.len() as int);
    assert(t[0] == 0);
    assert(spec_labels(t) == Some((Seq::<Seq<u8>>::empty(), t.drop_first())));
    assert(label_texts(Seq::<Seq<u8>>::empty()) =~= Seq::<Seq<char>>::empty());
}

} // verus!
