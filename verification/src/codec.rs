//! The wire codec.
//!
//! `encode_request` produces the tagged object sent to the external decision
//! service: discriminant field `command`, value the lowercase variant name,
//! the variant's fields flattened beside it. `decode_request` reads that
//! canonical envelope back. `decode_response` first probes an answer for the
//! generic error shape `{"error":bool,"error_msg":string}` and short-circuits
//! to an application error when `error` is true; otherwise it performs a
//! strict structural decode of the expected domain object, and any shape
//! mismatch is a deserialization error.

use vstd::prelude::*;

use crate::protocol::{HelloResponse, HelloResponseV, Id};
use crate::text::{
    dec_rep, dec_rep_i64, digits_end, lit_end, match_lit, parse_i64, parse_string, parse_u64,
    push_i64_dec, push_u64_dec, read_i64, read_string, skip_ws, text_wf, ws_end,
};

verus! {

// ---------------------------------------------------------------------------
// Requests
// ---------------------------------------------------------------------------

/// A typed request for the external decision service.
#[derive(Debug, Clone, PartialEq, Eq)]
pub enum Request {
    Hello { connected_at: i64, uaid: Option<Id> },
    CheckStorage { uaid: Id, message_month: Vec<char>, include_topic: bool, timestamp: Option<
        i64,
    > },
}

#[verifier::ext_equal]
pub enum RequestV {
    Hello { connected_at: i64, uaid: Option<Seq<char>> },
    CheckStorage { uaid: Seq<char>, message_month: Seq<char>, include_topic: bool, timestamp: Option<
        i64,
    > },
}

impl View for Request {
    type V = RequestV;

    open spec fn view(&self) -> RequestV {
        match self {
            Request::Hello { connected_at, uaid } => RequestV::Hello {
                connected_at: *connected_at,
                uaid: match uaid {
                    Some(u) => Some(u@),
                    None => None,
                },
            },
            Request::CheckStorage { uaid, message_month, include_topic, timestamp } => {
                RequestV::CheckStorage {
                    uaid: uaid@,
                    message_month: message_month@,
                    include_topic: *include_topic,
                    timestamp: *timestamp,
                }
            },
        }
    }
}

impl RequestV {
    /// Every identifier is well formed and every text field can be carried
    /// verbatim inside a string literal.
    pub open spec fn wf(self) -> bool {
        match self {
            RequestV::Hello { connected_at, uaid } => uaid matches Some(u) ==> crate::protocol::id_wf(
                u,
            ),
            RequestV::CheckStorage { uaid, message_month, include_topic, timestamp } => {
                crate::protocol::id_wf(uaid) && text_wf(message_month)
            },
        }
    }
}

// ---------------------------------------------------------------------------
// Encoding pieces
// ---------------------------------------------------------------------------

/// A JSON string literal around text that needs no escaping.
pub open spec fn enc_str(s: Seq<char>) -> Seq<char> {
    seq!['"'] + s + seq!['"']
}

pub open spec fn enc_bool(b: bool) -> Seq<char> {
    if b {
        "true"@
    } else {
        "false"@
    }
}

pub open spec fn enc_opt_str(o: Option<Seq<char>>) -> Seq<char> {
    match o {
        Some(s) => enc_str(s),
        None => "null"@,
    }
}

pub open spec fn enc_opt_i64(o: Option<i64>) -> Seq<char> {
    match o {
        Some(v) => dec_rep_i64(v as int),
        None => "null"@,
    }
}

/// Appends the characters of `s`.
pub fn push_str(out: &mut Vec<char>, s: &str)
    ensures
        final(out)@ == old(out)@ + s@,
{
    let n = s.unicode_len();
    let mut j: usize = 0;
    while j < n
        invariant
            0 <= j <= n,
            n == s@.len(),
            out@ == old(out)@ + s@.subrange(0, j as int),
        decreases n - j,
    {
        out.push(s.get_char(j));
        j += 1;
        assert(out@ =~= old(out)@ + s@.subrange(0, j as int));
    }
    assert(s@.subrange(0, n as int) =~= s@);
}

/// Appends a quoted string literal.
pub fn push_quoted(out: &mut Vec<char>, s: &[char])
    ensures
        final(out)@ == old(out)@ + enc_str(s@),
{
    out.push('"');
    let n = s.len();
    let mut j: usize = 0;
    while j < n
        invariant
            0 <= j <= n,
            n == s@.len(),
            out@ == old(out)@ + seq!['"'] + s@.subrange(0, j as int),
        decreases n - j,
    {
        out.push(s[j]);
        j += 1;
        assert(out@ =~= old(out)@ + seq!['"'] + s@.subrange(0, j as int));
    }
    out.push('"');
    assert(final(out)@ =~= old(out)@ + enc_str(s@));
}

fn push_bool(out: &mut Vec<char>, b: bool)
    ensures
        final(out)@ == old(out)@ + enc_bool(b),
{
    if b {
        push_str(out, "true");
    } else {
        push_str(out, "false");
    }
}

// ---------------------------------------------------------------------------
// Request encoding
// ---------------------------------------------------------------------------

pub open spec fn encode_request_spec(r: RequestV) -> Seq<char> {
    match r {
        RequestV::Hello { connected_at, uaid } => "{\"command\":\"hello\",\"connected_at\":"@
            + dec_rep_i64(connected_at as int) + ",\"uaid\":"@ + enc_opt_str(uaid) + "}"@,
        RequestV::CheckStorage { uaid, message_month, include_topic, timestamp } => {
            "{\"command\":\"checkstorage\",\"uaid\":"@ + enc_str(uaid) + ",\"message_month\":"@
                + enc_str(message_month) + ",\"include_topic\":"@ + enc_bool(include_topic)
                + ",\"timestamp\":"@ + enc_opt_i64(timestamp) + "}"@
        },
    }
}

/// Encodes a request into its tagged text envelope.
pub fn encode_request(r: &Request) -> (out: Vec<char>)
    requires
        r@.wf(),
    ensures
        out@ == encode_request_spec(r@),
{
    let mut out: Vec<char> = Vec::new();
    match r {
        Request::Hello { connected_at, uaid } => {
            push_str(&mut out, "{\"command\":\"hello\",\"connected_at\":");
            push_i64_dec(&mut out, *connected_at);
            push_str(&mut out, ",\"uaid\":");
            match uaid {
                Some(u) => push_quoted(&mut out, u.chars().as_slice()),
                None => push_str(&mut out, "null"),
            }
            push_str(&mut out, "}");
            assert(out@ =~= encode_request_spec(r@));
        },
        Request::CheckStorage { uaid, message_month, include_topic, timestamp } => {
            push_str(&mut out, "{\"command\":\"checkstorage\",\"uaid\":");
            push_quoted(&mut out, uaid.chars().as_slice());
            push_str(&mut out, ",\"message_month\":");
            push_quoted(&mut out, message_month.as_slice());
            push_str(&mut out, ",\"include_topic\":");
            push_bool(&mut out, *include_topic);
            push_str(&mut out, ",\"timestamp\":");
            match timestamp {
                Some(t) => push_i64_dec(&mut out, *t),
                None => push_str(&mut out, "null"),
            }
            push_str(&mut out, "}");
            assert(out@ =~= encode_request_spec(r@));
        },
    }
    out
}

// ---------------------------------------------------------------------------
// Request decoding (canonical envelope)
// ---------------------------------------------------------------------------

/// `null` or a non-empty quoted identifier.
pub open spec fn parse_opt_id(s: Seq<char>, i: int) -> Option<(Option<Seq<char>>, int)> {
    match lit_end(s, i, "null"@) {
        Some(e) => Some((None, e)),
        None => match parse_string(s, i) {
            Some(p) => if p.0.len() >= 1 {
                Some((Some(p.0), p.1))
            } else {
                None
            },
            None => None,
        },
    }
}

fn read_opt_id(s: &[char], i: usize) -> (r: Option<(Option<Id>, usize)>)
    requires
        i <= s@.len(),
    ensures
        match r {
            Some(p) => parse_opt_id(s@, i as int) == Some(
                (
                    match p.0 {
                        Some(id) => Some(id@),
                        None => None,
                    },
                    p.1 as int,
                ),
            ) && i <= p.1 <= s@.len(),
            None => parse_opt_id(s@, i as int) is None,
        },
{
    match match_lit(s, i, "null") {
        Some(e) => Some((None, e)),
        None => match read_string(s, i) {
            Some(p) => {
                match Id::new(p.0) {
                    Some(id) => Some((Some(id), p.1)),
                    None => {
                        proof {
                            crate::text::lemma_scan_quote_props(s@, i + 1);
                        }
                        None
                    },
                }
            },
            None => None,
        },
    }
}

pub open spec fn decode_hello_req(s: Seq<char>) -> Option<RequestV> {
    match lit_end(s, 0, "{\"command\":\"hello\",\"connected_at\":"@) {
        Some(i1) => match parse_i64(s, i1) {
            Some(p1) => match lit_end(s, p1.1, ",\"uaid\":"@) {
                Some(i2) => match parse_opt_id(s, i2) {
                    Some(p2) => if lit_end(s, p2.1, "}"@) == Some(s.len() as int) {
                        Some(RequestV::Hello { connected_at: p1.0 as i64, uaid: p2.0 })
                    } else {
                        None
                    },
                    None => None,
                },
                None => None,
            },
            None => None,
        },
        None => None,
    }
}

pub open spec fn decode_checkstorage_req(s: Seq<char>) -> Option<RequestV> {
    match lit_end(s, 0, "{\"command\":\"checkstorage\",\"uaid\":"@) {
        Some(i1) => match parse_string(s, i1) {
            Some(pu) => if pu.0.len() >= 1 {
                match lit_end(s, pu.1, ",\"message_month\":"@) {
                    Some(i2) => match parse_string(s, i2) {
                        Some(pm) => match lit_end(s, pm.1, ",\"include_topic\":"@) {
                            Some(i3) => match parse_bool(s, i3) {
                                Some(pb) => match lit_end(s, pb.1, ",\"timestamp\":"@) {
                                    Some(i4) => match parse_opt_i64(s, i4) {
                                        Some(pt) => if lit_end(s, pt.1, "}"@) == Some(
                                            s.len() as int,
                                        ) {
                                            Some(
                                                RequestV::CheckStorage {
                                                    uaid: pu.0,
                                                    message_month: pm.0,
                                                    include_topic: pb.0,
                                                    timestamp: pt.0,
                                                },
                                            )
                                        } else {
                                            None
                                        },
                                        None => None,
                                    },
                                    None => None,
                                },
                                None => None,
                            },
                            None => None,
                        },
                        None => None,
                    },
                    None => None,
                }
            } else {
                None
            },
            None => None,
        },
        None => None,
    }
}

/// The canonical request envelope, read back.
pub open spec fn decode_request_spec(s: Seq<char>) -> Option<RequestV> {
    match decode_hello_req(s) {
        Some(r) => Some(r),
        None => decode_checkstorage_req(s),
    }
}

pub open spec fn parse_bool(s: Seq<char>, i: int) -> Option<(bool, int)> {
    match lit_end(s, i, "true"@) {
        Some(e) => Some((true, e)),
        None => match lit_end(s, i, "false"@) {
            Some(e) => Some((false, e)),
            None => None,
        },
    }
}

fn read_bool(s: &[char], i: usize) -> (r: Option<(bool, usize)>)
    requires
        i <= s@.len(),
    ensures
        match r {
            Some(p) => parse_bool(s@, i as int) == Some((p.0, p.1 as int)) && i <= p.1 <= s@.len(),
            None => parse_bool(s@, i as int) is None,
        },
{
    match match_lit(s, i, "true") {
        Some(e) => Some((true, e)),
        None => match match_lit(s, i, "false") {
            Some(e) => Some((false, e)),
            None => None,
        },
    }
}

pub open spec fn parse_opt_i64(s: Seq<char>, i: int) -> Option<(Option<i64>, int)> {
    match lit_end(s, i, "null"@) {
        Some(e) => Some((None, e)),
        None => match parse_i64(s, i) {
            Some(p) => Some((Some(p.0 as i64), p.1)),
            None => None,
        },
    }
}

fn read_opt_i64(s: &[char], i: usize) -> (r: Option<(Option<i64>, usize)>)
    requires
        i <= s@.len(),
    ensures
        match r {
            Some(p) => parse_opt_i64(s@, i as int) == Some((p.0, p.1 as int)) && i <= p.1
                <= s@.len(),
            None => parse_opt_i64(s@, i as int) is None,
        },
{
    match match_lit(s, i, "null") {
        Some(e) => Some((None, e)),
        None => match read_i64(s, i) {
            Some(p) => Some((Some(p.0), p.1)),
            None => None,
        },
    }
}

/// Reads a canonical request envelope back into a typed request.
pub fn decode_request(s: &[char]) -> (r: Option<Request>)
    ensures
        match r {
            Some(req) => decode_request_spec(s@) == Some(req@),
            None => decode_request_spec(s@) is None,
        },
{
    match decode_hello_req_exec(s) {
        Some(req) => Some(req),
        None => decode_checkstorage_req_exec(s),
    }
}

fn decode_hello_req_exec(s: &[char]) -> (r: Option<Request>)
    ensures
        match r {
            Some(req) => decode_hello_req(s@) == Some(req@),
            None => decode_hello_req(s@) is None,
        },
{
    let i1 = match match_lit(s, 0, "{\"command\":\"hello\",\"connected_at\":") {
        Some(e) => e,
        None => {
            return None;
        },
    };
    let (v, i2) = match read_i64(s, i1) {
        Some(p) => p,
        None => {
            return None;
        },
    };
    let i3 = match match_lit(s, i2, ",\"uaid\":") {
        Some(e) => e,
        None => {
            return None;
        },
    };
    let (u, i4) = match read_opt_id(s, i3) {
        Some(p) => p,
        None => {
            return None;
        },
    };
    match match_lit(s, i4, "}") {
        Some(e) => {
            if e == s.len() {
                Some(Request::Hello { connected_at: v, uaid: u })
            } else {
                None
            }
        },
        None => None,
    }
}

fn decode_checkstorage_req_exec(s: &[char]) -> (r: Option<Request>)
    ensures
        match r {
            Some(req) => decode_checkstorage_req(s@) == Some(req@),
            None => decode_checkstorage_req(s@) is None,
        },
{
    let i1 = match match_lit(s, 0, "{\"command\":\"checkstorage\",\"uaid\":") {
        Some(e) => e,
        None => {
            return None;
        },
    };
    let (u, i2) = match read_string(s, i1) {
        Some(p) => p,
        None => {
            return None;
        },
    };
    let uid = match Id::new(u) {
        Some(id) => id,
        None => {
            proof {
                crate::text::lemma_scan_quote_props(s@, i1 + 1);
            }
            return None;
        },
    };
    let i3 = match match_lit(s, i2, ",\"message_month\":") {
        Some(e) => e,
        None => {
            return None;
        },
    };
    let (m, i4) = match read_string(s, i3) {
        Some(p) => p,
        None => {
            return None;
        },
    };
    let i5 = match match_lit(s, i4, ",\"include_topic\":") {
        Some(e) => e,
        None => {
            return None;
        },
    };
    let (b, i6) = match read_bool(s, i5) {
        Some(p) => p,
        None => {
            return None;
        },
    };
    let i7 = match match_lit(s, i6, ",\"timestamp\":") {
        Some(e) => e,
        None => {
            return None;
        },
    };
    let (t, i8) = match read_opt_i64(s, i7) {
        Some(p) => p,
        None => {
            return None;
        },
    };
    match match_lit(s, i8, "}") {
        Some(e) => {
            if e == s.len() {
                Some(
                    Request::CheckStorage {
                        uaid: uid,
                        message_month: m,
                        include_topic: b,
                        timestamp: t,
                    },
                )
            } else {
                None
            }
        },
        None => None,
    }
}

// ---------------------------------------------------------------------------
// Response decoding
// ---------------------------------------------------------------------------

/// What `decode_response` resolves a completion text to.
#[derive(Debug, Clone, PartialEq, Eq)]
pub enum Decoded {
    /// The domain object matching the expected schema.
    Response(HelloResponse),
    /// The external service reported `{"error":true,...}`; carries `error_msg`.
    ApplicationError(Vec<char>),
    /// The text did not structurally match the expected shape.
    DeserializationError,
}

#[verifier::ext_equal]
pub enum DecodedV {
    Response(HelloResponseV),
    ApplicationError(Seq<char>),
    DeserializationError,
}

impl View for Decoded {
    type V = DecodedV;

    open spec fn view(&self) -> DecodedV {
        match self {
            Decoded::Response(h) => DecodedV::Response(h@),
            Decoded::ApplicationError(m) => DecodedV::ApplicationError(m@),
            Decoded::DeserializationError => DecodedV::DeserializationError,
        }
    }
}

/// Skips whitespace, then matches a literal token.
pub open spec fn tok(s: Seq<char>, i: int, l: Seq<char>) -> Option<int>
    recommends
        0 <= i <= s.len(),
{
    lit_end(s, ws_end(s, i), l)
}

fn tok_exec(s: &[char], i: usize, l: &str) -> (r: Option<usize>)
    requires
        i <= s@.len(),
    ensures
        match r {
            Some(e) => tok(s@, i as int, l@) == Some(e as int) && i <= e <= s@.len(),
            None => tok(s@, i as int, l@) is None,
        },
{
    let j = skip_ws(s, i);
    match match_lit(s, j, l) {
        Some(e) => Some(e),
        None => None,
    }
}

pub open spec fn p_bool(s: Seq<char>, i: int) -> Option<(bool, int)>
    recommends
        0 <= i <= s.len(),
{
    parse_bool(s, ws_end(s, i))
}

fn p_bool_exec(s: &[char], i: usize) -> (r: Option<(bool, usize)>)
    requires
        i <= s@.len(),
    ensures
        match r {
            Some(p) => p_bool(s@, i as int) == Some((p.0, p.1 as int)) && i <= p.1 <= s@.len(),
            None => p_bool(s@, i as int) is None,
        },
{
    let j = skip_ws(s, i);
    read_bool(s, j)
}

pub open spec fn p_str(s: Seq<char>, i: int) -> Option<(Seq<char>, int)>
    recommends
        0 <= i <= s.len(),
{
    parse_string(s, ws_end(s, i))
}

fn p_str_exec(s: &[char], i: usize) -> (r: Option<(Vec<char>, usize)>)
    requires
        i <= s@.len(),
    ensures
        match r {
            Some(p) => p_str(s@, i as int) == Some((p.0@, p.1 as int)) && i <= p.1 <= s@.len(),
            None => p_str(s@, i as int) is None,
        },
{
    let j = skip_ws(s, i);
    read_string(s, j)
}

pub open spec fn p_opt_id(s: Seq<char>, i: int) -> Option<(Option<Seq<char>>, int)>
    recommends
        0 <= i <= s.len(),
{
    parse_opt_id(s, ws_end(s, i))
}

fn p_opt_id_exec(s: &[char], i: usize) -> (r: Option<(Option<Id>, usize)>)
    requires
        i <= s@.len(),
    ensures
        match r {
            Some(p) => p_opt_id(s@, i as int) == Some(
                (
                    match p.0 {
                        Some(id) => Some(id@),
                        None => None,
                    },
                    p.1 as int,
                ),
            ) && i <= p.1 <= s@.len(),
            None => p_opt_id(s@, i as int) is None,
        },
{
    let j = skip_ws(s, i);
    read_opt_id(s, j)
}

/// A member key followed by its colon, whitespace allowed around both.
pub open spec fn key_end(s: Seq<char>, i: int, k: Seq<char>) -> Option<int>
    recommends
        0 <= i <= s.len(),
{
    match tok(s, i, k) {
        Some(j) => tok(s, j, ":"@),
        None => None,
    }
}

fn key_exec(s: &[char], i: usize, k: &str) -> (r: Option<usize>)
    requires
        i <= s@.len(),
    ensures
        match r {
            Some(e) => key_end(s@, i as int, k@) == Some(e as int) && i <= e <= s@.len(),
            None => key_end(s@, i as int, k@) is None,
        },
{
    match tok_exec(s, i, k) {
        Some(j) => tok_exec(s, j, ":"),
        None => None,
    }
}

/// The closing brace, with nothing but whitespace after it.
pub open spec fn obj_end(s: Seq<char>, i: int) -> bool
    recommends
        0 <= i <= s.len(),
{
    match tok(s, i, "}"@) {
        Some(e) => ws_end(s, e) == s.len(),
        None => false,
    }
}

fn obj_end_exec(s: &[char], i: usize) -> (r: bool)
    requires
        i <= s@.len(),
    ensures
        r == obj_end(s@, i as int),
{
    match tok_exec(s, i, "}") {
        Some(e) => {
            let w = skip_ws(s, e);
            w == s.len()
        },
        None => false,
    }
}

/// The generic error shape `{"error":bool,"error_msg":string}`: exactly the
/// two members, in either order.
pub open spec fn err_probe(s: Seq<char>) -> Option<(bool, Seq<char>)> {
    match tok(s, 0, "{"@) {
        Some(i1) => match key_end(s, i1, "\"error\""@) {
            Some(i2) => match p_bool(s, i2) {
                Some(pb) => match tok(s, pb.1, ","@) {
                    Some(i3) => match key_end(s, i3, "\"error_msg\""@) {
                        Some(i4) => match p_str(s, i4) {
                            Some(pm) => if obj_end(s, pm.1) {
                                Some((pb.0, pm.0))
                            } else {
                                None
                            },
                            None => None,
                        },
                        None => None,
                    },
                    None => None,
                },
                None => None,
            },
            None => match key_end(s, i1, "\"error_msg\""@) {
                Some(i2) => match p_str(s, i2) {
                    Some(pm) => match tok(s, pm.1, ","@) {
                        Some(i3) => match key_end(s, i3, "\"error\""@) {
                            Some(i4) => match p_bool(s, i4) {
                                Some(pb) => if obj_end(s, pb.1) {
                                    Some((pb.0, pm.0))
                                } else {
                                    None
                                },
                                None => None,
                            },
                            None => None,
                        },
                        None => None,
                    },
                    None => None,
                },
                None => None,
            },
        },
        None => None,
    }
}

fn err_probe_exec(s: &[char]) -> (r: Option<(bool, Vec<char>)>)
    ensures
        match r {
            Some(p) => err_probe(s@) == Some((p.0, p.1@)),
            None => err_probe(s@) is None,
        },
{
    let i1 = match tok_exec(s, 0, "{") {
        Some(e) => e,
        None => {
            return None;
        },
    };
    match key_exec(s, i1, "\"error\"") {
        Some(i2) => {
            let (b, i3) = match p_bool_exec(s, i2) {
                Some(p) => p,
                None => {
                    return None;
                },
            };
            let i4 = match tok_exec(s, i3, ",") {
                Some(e) => e,
                None => {
                    return None;
                },
            };
            let i5 = match key_exec(s, i4, "\"error_msg\"") {
                Some(e) => e,
                None => {
                    return None;
                },
            };
            let (m, i6) = match p_str_exec(s, i5) {
                Some(p) => p,
                None => {
                    return None;
                },
            };
            if obj_end_exec(s, i6) {
                Some((b, m))
            } else {
                None
            }
        },
        None => {
            let i2 = match key_exec(s, i1, "\"error_msg\"") {
                Some(e) => e,
                None => {
                    return None;
                },
            };
            let (m, i3) = match p_str_exec(s, i2) {
                Some(p) => p,
                None => {
                    return None;
                },
            };
            let i4 = match tok_exec(s, i3, ",") {
                Some(e) => e,
                None => {
                    return None;
                },
            };
            let i5 = match key_exec(s, i4, "\"error\"") {
                Some(e) => e,
                None => {
                    return None;
                },
            };
            let (b, i6) = match p_bool_exec(s, i5) {
                Some(p) => p,
                None => {
                    return None;
                },
            };
            if obj_end_exec(s, i6) {
                Some((b, m))
            } else {
                None
            }
        },
    }
}

/// The view of a `uaid` member slot: absent, null, or an identifier.
pub open spec fn uaid_slot_view(u: Option<Option<Id>>) -> Option<Option<Seq<char>>> {
    match u {
        Some(Some(id)) => Some(Some(id@)),
        Some(None) => Some(None),
        None => None,
    }
}

pub open spec fn month_slot_view(m: Option<Vec<char>>) -> Option<Seq<char>> {
    match m {
        Some(v) => Some(v@),
        None => None,
    }
}

/// One member of a hello answer: dispatch on its key, reject a duplicate.
/// The slots carry the members seen so far; the `uaid` slot distinguishes
/// an absent member from an explicit null.
pub open spec fn hello_member(
    s: Seq<char>,
    i: int,
    uaid: Option<Option<Seq<char>>>,
    month: Option<Seq<char>>,
    reset: Option<bool>,
    rot: Option<bool>,
) -> Option<(Option<Option<Seq<char>>>, Option<Seq<char>>, Option<bool>, Option<bool>, int)>
    recommends
        0 <= i <= s.len(),
{
    match key_end(s, i, "\"uaid\""@) {
        Some(j) => if uaid is None {
            match p_opt_id(s, j) {
                Some(p) => Some((Some(p.0), month, reset, rot, p.1)),
                None => None,
            }
        } else {
            None
        },
        None => match key_end(s, i, "\"message_month\""@) {
            Some(j) => if month is None {
                match p_str(s, j) {
                    Some(p) => Some((uaid, Some(p.0), reset, rot, p.1)),
                    None => None,
                }
            } else {
                None
            },
            None => match key_end(s, i, "\"reset_uaid\""@) {
                Some(j) => if reset is None {
                    match p_bool(s, j) {
                        Some(p) => Some((uaid, month, Some(p.0), rot, p.1)),
                        None => None,
                    }
                } else {
                    None
                },
                None => match key_end(s, i, "\"rotate_message_table\""@) {
                    Some(j) => if rot is None {
                        match p_bool(s, j) {
                            Some(p) => Some((uaid, month, reset, Some(p.0), p.1)),
                            None => None,
                        }
                    } else {
                        None
                    },
                    None => None,
                },
            },
        },
    }
}

/// The members once the object closes: the three required ones must all be
/// there; a `uaid` that was absent or null is no identifier.
pub open spec fn hello_finish(
    uaid: Option<Option<Seq<char>>>,
    month: Option<Seq<char>>,
    reset: Option<bool>,
    rot: Option<bool>,
) -> Option<HelloResponseV> {
    match (month, reset, rot) {
        (Some(m), Some(r), Some(o)) => Some(
            HelloResponseV {
                uaid: match uaid {
                    Some(Some(u)) => Some(u),
                    _ => None,
                },
                message_month: m,
                reset_uaid: r,
                rotate_message_table: o,
            },
        ),
        _ => None,
    }
}

/// The members of a hello answer, one after another, in any order, each at
/// most once. Four members exist, so four steps of fuel always suffice.
pub open spec fn hello_members(
    s: Seq<char>,
    i: int,
    uaid: Option<Option<Seq<char>>>,
    month: Option<Seq<char>>,
    reset: Option<bool>,
    rot: Option<bool>,
    fuel: nat,
) -> Option<HelloResponseV>
    recommends
        0 <= i <= s.len(),
    decreases fuel,
{
    if fuel == 0 {
        None
    } else {
        match hello_member(s, i, uaid, month, reset, rot) {
            Some(m5) => if obj_end(s, m5.4) {
                hello_finish(m5.0, m5.1, m5.2, m5.3)
            } else {
                match tok(s, m5.4, ","@) {
                    Some(k) => if 0 <= k <= s.len() {
                        hello_members(s, k, m5.0, m5.1, m5.2, m5.3, (fuel - 1) as nat)
                    } else {
                        None
                    },
                    None => None,
                }
            },
            None => None,
        }
    }
}

/// Strict structural decode of a hello answer: `uaid` may be absent or
/// `null`; `message_month`, `reset_uaid` and `rotate_message_table` are
/// required; the members may come in any order, each at most once, with
/// nothing else beside them.
pub open spec fn decode_hello_resp(s: Seq<char>) -> Option<HelloResponseV> {
    match tok(s, 0, "{"@) {
        Some(i1) => hello_members(s, i1, None, None, None, None, 4),
        None => None,
    }
}

fn hello_member_exec(
    s: &[char],
    i: usize,
    uaid: Option<Option<Id>>,
    month: Option<Vec<char>>,
    reset: Option<bool>,
    rot: Option<bool>,
) -> (r: Option<(Option<Option<Id>>, Option<Vec<char>>, Option<bool>, Option<bool>, usize)>)
    requires
        i <= s@.len(),
    ensures
        match r {
            Some(t) => hello_member(
                s@,
                i as int,
                uaid_slot_view(uaid),
                month_slot_view(month),
                reset,
                rot,
            ) == Some(
                (uaid_slot_view(t.0), month_slot_view(t.1), t.2, t.3, t.4 as int),
            ) && i <= t.4 <= s@.len(),
            None => hello_member(
                s@,
                i as int,
                uaid_slot_view(uaid),
                month_slot_view(month),
                reset,
                rot,
            ) is None,
        },
{
    match key_exec(s, i, "\"uaid\"") {
        Some(j) => {
            if uaid.is_some() {
                return None;
            }
            match p_opt_id_exec(s, j) {
                Some(p) => Some((Some(p.0), month, reset, rot, p.1)),
                None => None,
            }
        },
        None => match key_exec(s, i, "\"message_month\"") {
            Some(j) => {
                if month.is_some() {
                    return None;
                }
                match p_str_exec(s, j) {
                    Some(p) => Some((uaid, Some(p.0), reset, rot, p.1)),
                    None => None,
                }
            },
            None => match key_exec(s, i, "\"reset_uaid\"") {
                Some(j) => {
                    if reset.is_some() {
                        return None;
                    }
                    match p_bool_exec(s, j) {
                        Some(p) => Some((uaid, month, Some(p.0), rot, p.1)),
                        None => None,
                    }
                },
                None => match key_exec(s, i, "\"rotate_message_table\"") {
                    Some(j) => {
                        if rot.is_some() {
                            return None;
                        }
                        match p_bool_exec(s, j) {
                            Some(p) => Some((uaid, month, reset, Some(p.0), p.1)),
                            None => None,
                        }
                    },
                    None => None,
                },
            },
        },
    }
}

fn hello_members_exec(
    s: &[char],
    i: usize,
    uaid: Option<Option<Id>>,
    month: Option<Vec<char>>,
    reset: Option<bool>,
    rot: Option<bool>,
    fuel: u8,
) -> (r: Option<HelloResponse>)
    requires
        i <= s@.len(),
    ensures
        match r {
            Some(h) => hello_members(
                s@,
                i as int,
                uaid_slot_view(uaid),
                month_slot_view(month),
                reset,
                rot,
                fuel as nat,
            ) == Some(h@),
            None => hello_members(
                s@,
                i as int,
                uaid_slot_view(uaid),
                month_slot_view(month),
                reset,
                rot,
                fuel as nat,
            ) is None,
        },
    decreases fuel,
{
    if fuel == 0 {
        return None;
    }
    let (u2, m2, r2, o2, j) = match hello_member_exec(s, i, uaid, month, reset, rot) {
        Some(t) => t,
        None => {
            return None;
        },
    };
    if obj_end_exec(s, j) {
        match (m2, r2, o2) {
            (Some(m), Some(rs), Some(ro)) => Some(
                HelloResponse {
                    uaid: match u2 {
                        Some(Some(u)) => Some(u),
                        _ => None,
                    },
                    message_month: m,
                    reset_uaid: rs,
                    rotate_message_table: ro,
                },
            ),
            _ => None,
        }
    } else {
        match tok_exec(s, j, ",") {
            Some(k) => hello_members_exec(s, k, u2, m2, r2, o2, fuel - 1),
            None => None,
        }
    }
}

fn decode_hello_resp_exec(s: &[char]) -> (r: Option<HelloResponse>)
    ensures
        match r {
            Some(h) => decode_hello_resp(s@) == Some(h@),
            None => decode_hello_resp(s@) is None,
        },
{
    match tok_exec(s, 0, "{") {
        Some(i1) => hello_members_exec(s, i1, None, None, None, None, 4),
        None => None,
    }
}

/// What a completion text decodes to, error probe first.
pub open spec fn decode_response_spec(s: Seq<char>) -> DecodedV {
    match err_probe(s) {
        Some(p) => if p.0 {
            DecodedV::ApplicationError(p.1)
        } else {
            decode_structural(s)
        },
        None => decode_structural(s),
    }
}

pub open spec fn decode_structural(s: Seq<char>) -> DecodedV {
    match decode_hello_resp(s) {
        Some(h) => DecodedV::Response(h),
        None => DecodedV::DeserializationError,
    }
}

// ---------------------------------------------------------------------------
// Client message decoding
// ---------------------------------------------------------------------------

/// A non-empty quoted identifier.
pub open spec fn p_id(s: Seq<char>, i: int) -> Option<(Seq<char>, int)>
    recommends
        0 <= i <= s.len(),
{
    match p_str(s, i) {
        Some(p) => if p.0.len() >= 1 {
            Some(p)
        } else {
            None
        },
        None => None,
    }
}

fn p_id_exec(s: &[char], i: usize) -> (r: Option<(Id, usize)>)
    requires
        i <= s@.len(),
    ensures
        match r {
            Some(p) => p_id(s@, i as int) == Some((p.0@, p.1 as int)) && i <= p.1 <= s@.len(),
            None => p_id(s@, i as int) is None,
        },
{
    let j = skip_ws(s, i);
    match read_string(s, j) {
        Some(p) => {
            match Id::new(p.0) {
                Some(id) => Some((id, p.1)),
                None => {
                    proof {
                        crate::text::lemma_scan_quote_props(s@, j + 1);
                    }
                    None
                },
            }
        },
        None => None,
    }
}

/// The items of a non-empty channelID array, after the opening bracket.
pub open spec fn p_id_items(s: Seq<char>, i: int) -> Option<(Seq<Seq<char>>, int)>
    recommends
        0 <= i <= s.len(),
    decreases s.len() - i when 0 <= i <= s.len()
{
    match p_id(s, i) {
        Some(pu) => if i < pu.1 <= s.len() {
            match tok(s, pu.1, "]"@) {
                Some(e) => Some((seq![pu.0], e)),
                None => match tok(s, pu.1, ","@) {
                    Some(j) => if pu.1 <= j <= s.len() {
                        match p_id_items(s, j) {
                            Some(rest) => Some((seq![pu.0] + rest.0, rest.1)),
                            None => None,
                        }
                    } else {
                        None
                    },
                    None => None,
                },
            }
        } else {
            None
        },
        None => None,
    }
}

fn p_id_items_exec(s: &[char], i: usize) -> (r: Option<(Vec<Id>, usize)>)
    requires
        i <= s@.len(),
    ensures
        match r {
            Some(p) => p_id_items(s@, i as int) == Some(
                (p.0@.map_values(|id: Id| id@), p.1 as int),
            ) && i <= p.1 <= s@.len(),
            None => p_id_items(s@, i as int) is None,
        },
    decreases s@.len() - i,
{
    let (head, i2) = match p_id_exec(s, i) {
        Some(p) => p,
        None => {
            return None;
        },
    };
    if i2 == i {
        // a parsed identifier always advances; nothing to do here
        return None;
    }
    match tok_exec(s, i2, "]") {
        Some(e) => {
            let mut v: Vec<Id> = Vec::new();
            v.push(head);
            assert(v@.map_values(|id: Id| id@) =~= seq![head@]);
            Some((v, e))
        },
        None => {
            let j = match tok_exec(s, i2, ",") {
                Some(j) => j,
                None => {
                    return None;
                },
            };
            match p_id_items_exec(s, j) {
                Some((mut rest, e)) => {
                    let ghost restv = rest@;
                    rest.insert(0, head);
                    assert(rest@.map_values(|id: Id| id@) =~= seq![head@] + restv.map_values(
                        |id: Id| id@,
                    )) by {
                        assert(rest@ =~= seq![head] + restv);
                    }
                    Some((rest, e))
                },
                None => None,
            }
        },
    }
}

/// A channelID array: `[]` or a comma-separated run of identifiers.
pub open spec fn p_id_array(s: Seq<char>, i: int) -> Option<(Seq<Seq<char>>, int)>
    recommends
        0 <= i <= s.len(),
{
    match tok(s, i, "["@) {
        Some(j) => match tok(s, j, "]"@) {
            Some(e) => Some((Seq::empty(), e)),
            None => if 0 <= j <= s.len() {
                p_id_items(s, j)
            } else {
                None
            },
        },
        None => None,
    }
}

fn p_id_array_exec(s: &[char], i: usize) -> (r: Option<(Vec<Id>, usize)>)
    requires
        i <= s@.len(),
    ensures
        match r {
            Some(p) => p_id_array(s@, i as int) == Some(
                (p.0@.map_values(|id: Id| id@), p.1 as int),
            ) && i <= p.1 <= s@.len(),
            None => p_id_array(s@, i as int) is None,
        },
{
    let j = match tok_exec(s, i, "[") {
        Some(j) => j,
        None => {
            return None;
        },
    };
    match tok_exec(s, j, "]") {
        Some(e) => {
            let v: Vec<Id> = Vec::new();
            assert(v@.map_values(|id: Id| id@) =~= Seq::<Seq<char>>::empty());
            Some((v, e))
        },
        None => p_id_items_exec(s, j),
    }
}

/// One acknowledged update: `{"channelID":...,"version":...}`.
pub open spec fn p_ack(s: Seq<char>, i: int) -> Option<(crate::protocol::ClientAckV, int)>
    recommends
        0 <= i <= s.len(),
{
    match tok(s, i, "{"@) {
        Some(i1) => match tok(s, i1, "\"channelID\":"@) {
            Some(i2) => match p_id(s, i2) {
                Some(pu) => match tok(s, pu.1, ",\"version\":"@) {
                    Some(i3) => match p_str(s, i3) {
                        Some(pv) => match tok(s, pv.1, "}"@) {
                            Some(e) => Some(
                                (
                                    crate::protocol::ClientAckV {
                                        channel_id: pu.0,
                                        version: pv.0,
                                    },
                                    e,
                                ),
                            ),
                            None => None,
                        },
                        None => None,
                    },
                    None => None,
                },
                None => None,
            },
            None => None,
        },
        None => None,
    }
}

fn p_ack_exec(s: &[char], i: usize) -> (r: Option<(crate::protocol::ClientAck, usize)>)
    requires
        i <= s@.len(),
    ensures
        match r {
            Some(p) => p_ack(s@, i as int) == Some((p.0@, p.1 as int)) && i <= p.1 <= s@.len(),
            None => p_ack(s@, i as int) is None,
        },
{
    let i1 = match tok_exec(s, i, "{") {
        Some(e) => e,
        None => {
            return None;
        },
    };
    let i2 = match tok_exec(s, i1, "\"channelID\":") {
        Some(e) => e,
        None => {
            return None;
        },
    };
    let (u, i3) = match p_id_exec(s, i2) {
        Some(p) => p,
        None => {
            return None;
        },
    };
    let i4 = match tok_exec(s, i3, ",\"version\":") {
        Some(e) => e,
        None => {
            return None;
        },
    };
    let (v, i5) = match p_str_exec(s, i4) {
        Some(p) => p,
        None => {
            return None;
        },
    };
    match tok_exec(s, i5, "}") {
        Some(e) => Some((crate::protocol::ClientAck { channel_id: u, version: v }, e)),
        None => None,
    }
}

/// The items of a non-empty updates array, after the opening bracket.
pub open spec fn p_ack_items(s: Seq<char>, i: int) -> Option<
    (Seq<crate::protocol::ClientAckV>, int),
>
    recommends
        0 <= i <= s.len(),
    decreases s.len() - i when 0 <= i <= s.len()
{
    match p_ack(s, i) {
        Some(pa) => if i < pa.1 <= s.len() {
            match tok(s, pa.1, "]"@) {
                Some(e) => Some((seq![pa.0], e)),
                None => match tok(s, pa.1, ","@) {
                    Some(j) => if pa.1 <= j <= s.len() {
                        match p_ack_items(s, j) {
                            Some(rest) => Some((seq![pa.0] + rest.0, rest.1)),
                            None => None,
                        }
                    } else {
                        None
                    },
                    None => None,
                },
            }
        } else {
            None
        },
        None => None,
    }
}

fn p_ack_items_exec(s: &[char], i: usize) -> (r: Option<(Vec<crate::protocol::ClientAck>, usize)>)
    requires
        i <= s@.len(),
    ensures
        match r {
            Some(p) => p_ack_items(s@, i as int) == Some(
                (p.0@.map_values(|a: crate::protocol::ClientAck| a@), p.1 as int),
            ) && i <= p.1 <= s@.len(),
            None => p_ack_items(s@, i as int) is None,
        },
    decreases s@.len() - i,
{
    let (head, i2) = match p_ack_exec(s, i) {
        Some(p) => p,
        None => {
            return None;
        },
    };
    if i2 == i {
        // a parsed update always advances; nothing to do here
        return None;
    }
    match tok_exec(s, i2, "]") {
        Some(e) => {
            let mut v: Vec<crate::protocol::ClientAck> = Vec::new();
            let ghost headv = head@;
            v.push(head);
            assert(v@.map_values(|a: crate::protocol::ClientAck| a@) =~= seq![headv]);
            Some((v, e))
        },
        None => {
            let j = match tok_exec(s, i2, ",") {
                Some(j) => j,
                None => {
                    return None;
                },
            };
            match p_ack_items_exec(s, j) {
                Some((mut rest, e)) => {
                    let ghost restv = rest@;
                    let ghost headv = head@;
                    rest.insert(0, head);
                    assert(rest@.map_values(|a: crate::protocol::ClientAck| a@) =~= seq![headv]
                        + restv.map_values(|a: crate::protocol::ClientAck| a@)) by {
                        assert(rest@ =~= seq![head] + restv);
                    }
                    Some((rest, e))
                },
                None => None,
            }
        },
    }
}

/// An updates array: `[]` or a comma-separated run of updates.
pub open spec fn p_ack_array(s: Seq<char>, i: int) -> Option<
    (Seq<crate::protocol::ClientAckV>, int),
>
    recommends
        0 <= i <= s.len(),
{
    match tok(s, i, "["@) {
        Some(j) => match tok(s, j, "]"@) {
            Some(e) => Some((Seq::empty(), e)),
            None => if 0 <= j <= s.len() {
                p_ack_items(s, j)
            } else {
                None
            },
        },
        None => None,
    }
}

fn p_ack_array_exec(s: &[char], i: usize) -> (r: Option<(Vec<crate::protocol::ClientAck>, usize)>)
    requires
        i <= s@.len(),
    ensures
        match r {
            Some(p) => p_ack_array(s@, i as int) == Some(
                (p.0@.map_values(|a: crate::protocol::ClientAck| a@), p.1 as int),
            ) && i <= p.1 <= s@.len(),
            None => p_ack_array(s@, i as int) is None,
        },
{
    let j = match tok_exec(s, i, "[") {
        Some(j) => j,
        None => {
            return None;
        },
    };
    match tok_exec(s, j, "]") {
        Some(e) => {
            let v: Vec<crate::protocol::ClientAck> = Vec::new();
            assert(v@.map_values(|a: crate::protocol::ClientAck| a@)
                =~= Seq::<crate::protocol::ClientAckV>::empty());
            Some((v, e))
        },
        None => p_ack_items_exec(s, j),
    }
}

// Hello fields, in declared order, each optional.

pub open spec fn hello_close(
    s: Seq<char>,
    i: int,
    uaid: Option<Seq<char>>,
    cids: Option<Seq<Seq<char>>>,
    uwp: Option<bool>,
) -> Option<crate::protocol::ClientMessageV>
    recommends
        0 <= i <= s.len(),
{
    match tok(s, i, "}"@) {
        Some(e) => if ws_end(s, e) == s.len() {
            Some(
                crate::protocol::ClientMessageV::Hello {
                    uaid,
                    channel_ids: cids,
                    use_webpush: uwp,
                },
            )
        } else {
            None
        },
        None => None,
    }
}

pub open spec fn hello_after_cids(
    s: Seq<char>,
    i: int,
    uaid: Option<Seq<char>>,
    cids: Option<Seq<Seq<char>>>,
) -> Option<crate::protocol::ClientMessageV>
    recommends
        0 <= i <= s.len(),
{
    match tok(s, i, ",\"use_webpush\":"@) {
        Some(j) => match p_bool(s, j) {
            Some(p) => if 0 <= p.1 <= s.len() {
                hello_close(s, p.1, uaid, cids, Some(p.0))
            } else {
                None
            },
            None => None,
        },
        None => hello_close(s, i, uaid, cids, None),
    }
}

pub open spec fn hello_after_uaid(s: Seq<char>, i: int, uaid: Option<Seq<char>>) -> Option<
    crate::protocol::ClientMessageV,
>
    recommends
        0 <= i <= s.len(),
{
    match tok(s, i, ",\"channelIDs\":"@) {
        Some(j) => match p_id_array(s, j) {
            Some(p) => if 0 <= p.1 <= s.len() {
                hello_after_cids(s, p.1, uaid, Some(p.0))
            } else {
                None
            },
            None => None,
        },
        None => hello_after_cids(s, i, uaid, None),
    }
}

pub open spec fn hello_client(s: Seq<char>, i: int) -> Option<crate::protocol::ClientMessageV>
    recommends
        0 <= i <= s.len(),
{
    match tok(s, i, ",\"uaid\":"@) {
        Some(j) => match p_opt_id(s, j) {
            Some(p) => if 0 <= p.1 <= s.len() {
                hello_after_uaid(s, p.1, p.0)
            } else {
                None
            },
            None => None,
        },
        None => hello_after_uaid(s, i, None),
    }
}

pub open spec fn register_client(s: Seq<char>, i: int) -> Option<crate::protocol::ClientMessageV>
    recommends
        0 <= i <= s.len(),
{
    match tok(s, i, ",\"channelID\":"@) {
        Some(i1) => match p_id(s, i1) {
            Some(pu) => match tok(s, pu.1, "}"@) {
                Some(e) => if ws_end(s, e) == s.len() {
                    Some(crate::protocol::ClientMessageV::Register { channel_id: pu.0 })
                } else {
                    None
                },
                None => None,
            },
            None => None,
        },
        None => None,
    }
}

pub open spec fn unregister_client(s: Seq<char>, i: int) -> Option<crate::protocol::ClientMessageV>
    recommends
        0 <= i <= s.len(),
{
    match tok(s, i, ",\"channelID\":"@) {
        Some(i1) => match p_id(s, i1) {
            Some(pu) => match tok(s, pu.1, "}"@) {
                Some(e) => if ws_end(s, e) == s.len() {
                    Some(crate::protocol::ClientMessageV::Unregister { channel_id: pu.0 })
                } else {
                    None
                },
                None => None,
            },
            None => None,
        },
        None => None,
    }
}

pub open spec fn ack_client(s: Seq<char>, i: int) -> Option<crate::protocol::ClientMessageV>
    recommends
        0 <= i <= s.len(),
{
    match tok(s, i, ",\"updates\":"@) {
        Some(i1) => match p_ack_array(s, i1) {
            Some(pa) => match tok(s, pa.1, "}"@) {
                Some(e) => if ws_end(s, e) == s.len() {
                    Some(crate::protocol::ClientMessageV::Ack { updates: pa.0 })
                } else {
                    None
                },
                None => None,
            },
            None => None,
        },
        None => None,
    }
}

/// Strict decode of a client message: discriminant first, then the
/// variant's fields in declared order; unknown discriminants are rejected.
pub open spec fn decode_client_message_spec(s: Seq<char>) -> Option<
    crate::protocol::ClientMessageV,
> {
    match tok(s, 0, "{"@) {
        Some(i1) => match tok(s, i1, "\"messageType\":\"hello\""@) {
            Some(j) => hello_client(s, j),
            None => match tok(s, i1, "\"messageType\":\"register\""@) {
                Some(j) => register_client(s, j),
                None => match tok(s, i1, "\"messageType\":\"unregister\""@) {
                    Some(j) => unregister_client(s, j),
                    None => match tok(s, i1, "\"messageType\":\"ack\""@) {
                        Some(j) => ack_client(s, j),
                        None => None,
                    },
                },
            },
        },
        None => None,
    }
}

fn hello_client_exec(s: &[char], i: usize) -> (r: Option<crate::protocol::ClientMessage>)
    requires
        i <= s@.len(),
    ensures
        match r {
            Some(m) => hello_client(s@, i as int) == Some(m@),
            None => hello_client(s@, i as int) is None,
        },
{
    let (uaid, i2) = match tok_exec(s, i, ",\"uaid\":") {
        Some(j) => match p_opt_id_exec(s, j) {
            Some(p) => p,
            None => {
                return None;
            },
        },
        None => (None, i),
    };
    let (cids, i3) = match tok_exec(s, i2, ",\"channelIDs\":") {
        Some(j) => match p_id_array_exec(s, j) {
            Some(p) => (Some(p.0), p.1),
            None => {
                return None;
            },
        },
        None => (None, i2),
    };
    let (uwp, i4) = match tok_exec(s, i3, ",\"use_webpush\":") {
        Some(j) => match p_bool_exec(s, j) {
            Some(p) => (Some(p.0), p.1),
            None => {
                return None;
            },
        },
        None => (None, i3),
    };
    let e = match tok_exec(s, i4, "}") {
        Some(e) => e,
        None => {
            return None;
        },
    };
    let w = skip_ws(s, e);
    if w == s.len() {
        Some(crate::protocol::ClientMessage::Hello { uaid, channel_ids: cids, use_webpush: uwp })
    } else {
        None
    }
}

fn register_like_exec(s: &[char], i: usize) -> (r: Option<(Id, usize)>)
    requires
        i <= s@.len(),
    ensures
        match r {
            Some(p) => (match tok(s@, i as int, ",\"channelID\":"@) {
                Some(i1) => match p_id(s@, i1) {
                    Some(pu) => pu.0 == p.0@ && (match tok(s@, pu.1, "}"@) {
                        Some(e) => ws_end(s@, e) == s@.len() && p.1 == s@.len(),
                        None => false,
                    }),
                    None => false,
                },
                None => false,
            }),
            None => (match tok(s@, i as int, ",\"channelID\":"@) {
                Some(i1) => match p_id(s@, i1) {
                    Some(pu) => match tok(s@, pu.1, "}"@) {
                        Some(e) => ws_end(s@, e) != s@.len(),
                        None => true,
                    },
                    None => true,
                },
                None => true,
            }),
        },
{
    let i1 = match tok_exec(s, i, ",\"channelID\":") {
        Some(e) => e,
        None => {
            return None;
        },
    };
    let (u, i2) = match p_id_exec(s, i1) {
        Some(p) => p,
        None => {
            return None;
        },
    };
    let e = match tok_exec(s, i2, "}") {
        Some(e) => e,
        None => {
            return None;
        },
    };
    let w = skip_ws(s, e);
    if w == s.len() {
        Some((u, w))
    } else {
        None
    }
}

fn ack_client_exec(s: &[char], i: usize) -> (r: Option<crate::protocol::ClientMessage>)
    requires
        i <= s@.len(),
    ensures
        match r {
            Some(m) => ack_client(s@, i as int) == Some(m@),
            None => ack_client(s@, i as int) is None,
        },
{
    let i1 = match tok_exec(s, i, ",\"updates\":") {
        Some(e) => e,
        None => {
            return None;
        },
    };
    let (ups, i2) = match p_ack_array_exec(s, i1) {
        Some(p) => p,
        None => {
            return None;
        },
    };
    let e = match tok_exec(s, i2, "}") {
        Some(e) => e,
        None => {
            return None;
        },
    };
    let w = skip_ws(s, e);
    if w == s.len() {
        Some(crate::protocol::ClientMessage::Ack { updates: ups })
    } else {
        None
    }
}

/// Decodes a client wire message; any shape mismatch or unknown
/// discriminant is rejected.
pub fn decode_client_message(s: &[char]) -> (r: Option<crate::protocol::ClientMessage>)
    ensures
        match r {
            Some(m) => decode_client_message_spec(s@) == Some(m@),
            None => decode_client_message_spec(s@) is None,
        },
{
    let i1 = match tok_exec(s, 0, "{") {
        Some(e) => e,
        None => {
            return None;
        },
    };
    match tok_exec(s, i1, "\"messageType\":\"hello\"") {
        Some(j) => {
            return hello_client_exec(s, j);
        },
        None => {},
    }
    match tok_exec(s, i1, "\"messageType\":\"register\"") {
        Some(j) => {
            return match register_like_exec(s, j) {
                Some(p) => Some(crate::protocol::ClientMessage::Register { channel_id: p.0 }),
                None => None,
            };
        },
        None => {},
    }
    match tok_exec(s, i1, "\"messageType\":\"unregister\"") {
        Some(j) => {
            return match register_like_exec(s, j) {
                Some(p) => Some(crate::protocol::ClientMessage::Unregister { channel_id: p.0 }),
                None => None,
            };
        },
        None => {},
    }
    match tok_exec(s, i1, "\"messageType\":\"ack\"") {
        Some(j) => ack_client_exec(s, j),
        None => None,
    }
}

// ---------------------------------------------------------------------------
// Server message encoding
// ---------------------------------------------------------------------------

pub open spec fn enc_header(h: crate::protocol::HeaderV) -> Seq<char> {
    enc_str(h.name) + ":"@ + enc_str(h.value)
}

/// The members of a headers object, in the order kept by the notification.
pub open spec fn enc_headers(hs: Seq<crate::protocol::HeaderV>) -> Seq<char>
    decreases hs.len(),
{
    if hs.len() == 0 {
        Seq::empty()
    } else if hs.len() == 1 {
        enc_header(hs[0])
    } else {
        enc_headers(hs.drop_last()) + ","@ + enc_header(hs.last())
    }
}

pub open spec fn enc_notification(n: crate::protocol::NotificationV) -> Seq<char> {
    "{\"messageType\":\"notification\",\"channelID\":"@ + enc_str(n.channel_id) + ",\"version\":"@
        + enc_str(n.version) + ",\"ttl\":"@ + dec_rep(n.ttl as nat) + (match n.topic {
        Some(t) => ",\"topic\":"@ + enc_str(t),
        None => Seq::empty(),
    }) + ",\"timestamp\":"@ + dec_rep(n.timestamp as nat) + (match n.data {
        Some(d) => ",\"data\":"@ + enc_str(d),
        None => Seq::empty(),
    }) + (match n.headers {
        Some(hs) => ",\"headers\":{"@ + enc_headers(hs) + "}"@,
        None => Seq::empty(),
    }) + "}"@
}

/// The tagged text form of a server message: discriminant `messageType`,
/// lowercase; optional fields omitted, never emitted as null.
pub open spec fn encode_server_message_spec(m: crate::protocol::ServerMessageV) -> Seq<char> {
    match m {
        crate::protocol::ServerMessageV::Hello { uaid, status, use_webpush } => {
            "{\"messageType\":\"hello\",\"uaid\":"@ + enc_str(uaid) + ",\"status\":"@ + dec_rep(
                status as nat,
            ) + (match use_webpush {
                Some(b) => ",\"use_webpush\":"@ + enc_bool(b),
                None => Seq::empty(),
            }) + "}"@
        },
        crate::protocol::ServerMessageV::Register { channel_id, status, push_endpoint } => {
            "{\"messageType\":\"register\",\"channelID\":"@ + enc_str(channel_id) + ",\"status\":"@
                + dec_rep(status as nat) + ",\"pushEndpoint\":"@ + enc_str(push_endpoint) + "}"@
        },
        crate::protocol::ServerMessageV::Unregister { channel_id, status } => {
            "{\"messageType\":\"unregister\",\"channelID\":"@ + enc_str(channel_id)
                + ",\"status\":"@ + dec_rep(status as nat) + "}"@
        },
        crate::protocol::ServerMessageV::Notification(n) => enc_notification(n),
    }
}

fn push_headers(out: &mut Vec<char>, hs: &Vec<crate::protocol::Header>)
    ensures
        final(out)@ == old(out)@ + enc_headers(
            hs@.map_values(|h: crate::protocol::Header| h@),
        ),
{
    let ghost hv = hs@.map_values(|h: crate::protocol::Header| h@);
    let n = hs.len();
    let mut k: usize = 0;
    while k < n
        invariant
            0 <= k <= n,
            n == hs@.len(),
            hv == hs@.map_values(|h: crate::protocol::Header| h@),
            out@ == old(out)@ + enc_headers(hv.take(k as int)),
        decreases n - k,
    {
        if k > 0 {
            push_str(out, ",");
        }
        push_quoted(out, hs[k].name.as_slice());
        push_str(out, ":");
        push_quoted(out, hs[k].value.as_slice());
        k += 1;
        proof {
            let pre = hv.take(k - 1);
            let cur = hv.take(k as int);
            assert(cur.drop_last() =~= pre);
            assert(cur.last() == hv[k - 1]);
            if k == 1 {
                assert(enc_headers(cur) == enc_header(hv[0]));
            }
            assert(out@ =~= old(out)@ + enc_headers(cur));
        }
    }
    assert(hv.take(n as int) =~= hv);
}

/// Encodes a server message into its tagged text form.
pub fn encode_server_message(m: &crate::protocol::ServerMessage) -> (out: Vec<char>)
    requires
        m@.wf(),
    ensures
        out@ == encode_server_message_spec(m@),
{
    let mut out: Vec<char> = Vec::new();
    match m {
        crate::protocol::ServerMessage::Hello { uaid, status, use_webpush } => {
            push_str(&mut out, "{\"messageType\":\"hello\",\"uaid\":");
            push_quoted(&mut out, uaid.chars().as_slice());
            push_str(&mut out, ",\"status\":");
            push_u64_dec(&mut out, *status as u64);
            match use_webpush {
                Some(b) => {
                    push_str(&mut out, ",\"use_webpush\":");
                    push_bool(&mut out, *b);
                },
                None => {},
            }
            push_str(&mut out, "}");
            assert(out@ =~= encode_server_message_spec(m@));
        },
        crate::protocol::ServerMessage::Register { channel_id, status, push_endpoint } => {
            push_str(&mut out, "{\"messageType\":\"register\",\"channelID\":");
            push_quoted(&mut out, channel_id.chars().as_slice());
            push_str(&mut out, ",\"status\":");
            push_u64_dec(&mut out, *status as u64);
            push_str(&mut out, ",\"pushEndpoint\":");
            push_quoted(&mut out, push_endpoint.as_slice());
            push_str(&mut out, "}");
            assert(out@ =~= encode_server_message_spec(m@));
        },
        crate::protocol::ServerMessage::Unregister { channel_id, status } => {
            push_str(&mut out, "{\"messageType\":\"unregister\",\"channelID\":");
            push_quoted(&mut out, channel_id.chars().as_slice());
            push_str(&mut out, ",\"status\":");
            push_u64_dec(&mut out, *status as u64);
            push_str(&mut out, "}");
            assert(out@ =~= encode_server_message_spec(m@));
        },
        crate::protocol::ServerMessage::Notification(n) => {
            push_str(&mut out, "{\"messageType\":\"notification\",\"channelID\":");
            push_quoted(&mut out, n.channel_id.chars().as_slice());
            push_str(&mut out, ",\"version\":");
            push_quoted(&mut out, n.version.as_slice());
            push_str(&mut out, ",\"ttl\":");
            push_u64_dec(&mut out, n.ttl as u64);
            match &n.topic {
                Some(t) => {
                    push_str(&mut out, ",\"topic\":");
                    push_quoted(&mut out, t.as_slice());
                },
                None => {},
            }
            push_str(&mut out, ",\"timestamp\":");
            push_u64_dec(&mut out, n.timestamp);
            match &n.data {
                Some(d) => {
                    push_str(&mut out, ",\"data\":");
                    push_quoted(&mut out, d.as_slice());
                },
                None => {},
            }
            match &n.headers {
                Some(hs) => {
                    push_str(&mut out, ",\"headers\":{");
                    push_headers(&mut out, hs);
                    push_str(&mut out, "}");
                },
                None => {},
            }
            push_str(&mut out, "}");
            assert(out@ =~= encode_server_message_spec(m@));
        },
    }
    out
}

/// The text form of an update as the internal router hands it on.
pub open spec fn encode_update_spec(u: crate::protocol::UpdateV) -> Seq<char> {
    "{\"channelID\":"@ + enc_str(u.channel_id) + ",\"version\":"@ + dec_rep(u.version as nat)
        + "}"@
}

pub fn encode_update(u: &crate::protocol::Update) -> (out: Vec<char>)
    ensures
        out@ == encode_update_spec(u@),
{
    let mut out: Vec<char> = Vec::new();
    push_str(&mut out, "{\"channelID\":");
    push_quoted(&mut out, u.channel_id.chars().as_slice());
    push_str(&mut out, ",\"version\":");
    push_u64_dec(&mut out, u.version);
    push_str(&mut out, "}");
    assert(out@ =~= encode_update_spec(u@));
    out
}

// ---------------------------------------------------------------------------
// Laws
// ---------------------------------------------------------------------------

/// Reading back the written representation of a signed value recovers it,
/// whenever what follows does not begin with a digit.
pub proof fn lemma_parse_i64_of_rep(v: i64, s: Seq<char>, i: int)
    requires
        0 <= i,
        i + dec_rep_i64(v as int).len() <= s.len(),
        s.subrange(i, i + dec_rep_i64(v as int).len() as int) == dec_rep_i64(v as int),
        i + dec_rep_i64(v as int).len() == s.len() || !crate::text::is_digit_char(
            s[i + dec_rep_i64(v as int).len() as int],
        ),
    ensures
        parse_i64(s, i) == Some((v as int, i + dec_rep_i64(v as int).len() as int)),
{
    let rep = dec_rep_i64(v as int);
    let e = i + rep.len() as int;
    if v >= 0 {
        crate::text::lemma_dec_rep_digits(v as nat);
        assert(s[i] == rep[0]);
        assert(crate::text::is_digit_char(s[i]));
        assert(s[i] != '-');
        crate::text::lemma_parse_u64_of_rep(v as u64, s, i);
    } else {
        let m = (-(v as int)) as nat;
        let mrep = dec_rep(m);
        assert(rep == seq!['-'] + mrep);
        assert(s[i] == rep[0]);
        assert(s[i] == '-');
        assert(s.subrange(i + 1, i + 1 + mrep.len() as int) =~= mrep) by {
            assert forall|k: int| 0 <= k < mrep.len() implies s.subrange(
                i + 1,
                i + 1 + mrep.len() as int,
            )[k] == mrep[k] by {
                assert(s.subrange(i + 1, i + 1 + mrep.len() as int)[k] == s[i + 1 + k]);
                assert(s[i + 1 + k] == s.subrange(i, e)[1 + k]);
                assert(rep[1 + k] == mrep[k]);
            }
        }
        assert(m <= 0x8000000000000000);
        assert(m < 0x8AC7230489E80000);
        crate::text::lemma_parse_u64_of_rep(m as u64, s, i + 1);
        assert(parse_u64(s, i + 1) == Some((m, e)));
    }
}

/// Encode/decode round-trip: for every well-formed request value, reading
/// the canonical envelope back yields an equivalent structured value.
#[verifier::rlimit(100)]
pub proof fn lemma_request_round_trip(r: RequestV)
    requires
        r.wf(),
    ensures
        decode_request_spec(encode_request_spec(r)) == Some(r),
{
    reveal_strlit("null");
    reveal_strlit("true");
    reveal_strlit("false");
    reveal_strlit("}");
    reveal_strlit("{\"command\":\"hello\",\"connected_at\":");
    reveal_strlit("{\"command\":\"checkstorage\",\"uaid\":");
    reveal_strlit(",\"uaid\":");
    reveal_strlit(",\"message_month\":");
    reveal_strlit(",\"include_topic\":");
    reveal_strlit(",\"timestamp\":");
    let s = encode_request_spec(r);
    let lh = "{\"command\":\"hello\",\"connected_at\":"@;
    let lcs = "{\"command\":\"checkstorage\",\"uaid\":"@;
    match r {
        RequestV::Hello { connected_at, uaid } => {
            let num = dec_rep_i64(connected_at as int);
            let l2 = ",\"uaid\":"@;
            let u = enc_opt_str(uaid);
            assert(s =~= lh + num + l2 + u + "}"@);
            let i1 = lh.len() as int;
            let i2 = i1 + num.len();
            let i3 = i2 + l2.len();
            let i4 = i3 + u.len();
            assert(s.subrange(0, i1) =~= lh);
            assert(lit_end(s, 0, lh) == Some(i1));
            assert(s.subrange(i1, i2) =~= num);
            assert(s[i2] == l2[0]);
            assert(!crate::text::is_digit_char(s[i2]));
            lemma_parse_i64_of_rep(connected_at, s, i1);
            assert(s.subrange(i2, i3) =~= l2);
            assert(lit_end(s, i2, l2) == Some(i3));
            match uaid {
                None => {
                    assert(u == "null"@);
                    assert(s.subrange(i3, i3 + 4) =~= "null"@);
                    assert(lit_end(s, i3, "null"@) == Some(i4));
                    assert(parse_opt_id(s, i3) == Some((None::<Seq<char>>, i4)));
                },
                Some(idu) => {
                    assert(u =~= seq!['"'] + idu + seq!['"']);
                    assert(s[i3] == '"');
                    if i3 + 4 <= s.len() {
                        assert(s.subrange(i3, i3 + 4)[0] == '"');
                        assert(s.subrange(i3, i3 + 4) != "null"@);
                    }
                    assert(lit_end(s, i3, "null"@) is None);
                    let qe = i3 + 1 + idu.len() as int;
                    assert(s[qe] == '"');
                    assert forall|k: int| i3 + 1 <= k < qe implies crate::text::is_text_char(
                        #[trigger] s[k],
                    ) by {
                        assert(s[k] == idu[k - (i3 + 1)]);
                    }
                    crate::text::lemma_scan_quote_of(s, i3 + 1, qe);
                    assert(s.subrange(i3 + 1, qe) =~= idu);
                    assert(parse_string(s, i3) == Some((idu, i4)));
                    assert(idu.len() >= 1);
                },
            }
            assert(s.subrange(i4, i4 + 1) =~= "}"@);
            assert(i4 + 1 == s.len());
            assert(lit_end(s, i4, "}"@) == Some(s.len() as int));
            assert(decode_hello_req(s) matches Some(got) && got =~= r);
        },
        RequestV::CheckStorage { uaid, message_month, include_topic, timestamp } => {
            let um = enc_str(uaid);
            let l2 = ",\"message_month\":"@;
            let mm = enc_str(message_month);
            let l3 = ",\"include_topic\":"@;
            let bb = enc_bool(include_topic);
            let l4 = ",\"timestamp\":"@;
            let tt = enc_opt_i64(timestamp);
            assert(s =~= lcs + um + l2 + mm + l3 + bb + l4 + tt + "}"@);
            let i1 = lcs.len() as int;
            let i2 = i1 + um.len();
            let i3 = i2 + l2.len();
            let i4 = i3 + mm.len();
            let i5 = i4 + l3.len();
            let i6 = i5 + bb.len();
            let i7 = i6 + l4.len();
            let i8 = i7 + tt.len();
            // the hello envelope does not match: the command names differ
            if lh.len() <= s.len() {
                assert(s[12] == lcs[12]);
                assert(s.subrange(0, lh.len() as int)[12] == s[12]);
                assert(s.subrange(0, lh.len() as int) != lh);
            }
            assert(lit_end(s, 0, lh) is None);
            assert(decode_hello_req(s) is None);
            // the checkstorage envelope
            assert(s.subrange(0, i1) =~= lcs);
            assert(lit_end(s, 0, lcs) == Some(i1));
            assert(s[i1] == '"');
            let uqe = i1 + 1 + uaid.len() as int;
            assert(s[uqe] == '"');
            assert forall|k: int| i1 + 1 <= k < uqe implies crate::text::is_text_char(
                #[trigger] s[k],
            ) by {
                assert(s[k] == uaid[k - (i1 + 1)]);
            }
            crate::text::lemma_scan_quote_of(s, i1 + 1, uqe);
            assert(s.subrange(i1 + 1, uqe) =~= uaid);
            assert(parse_string(s, i1) == Some((uaid, i2)));
            assert(s.subrange(i2, i3) =~= l2);
            assert(lit_end(s, i2, l2) == Some(i3));
            assert(s[i3] == '"');
            let mqe = i3 + 1 + message_month.len() as int;
            assert(s[mqe] == '"');
            assert forall|k: int| i3 + 1 <= k < mqe implies crate::text::is_text_char(
                #[trigger] s[k],
            ) by {
                assert(s[k] == message_month[k - (i3 + 1)]);
            }
            crate::text::lemma_scan_quote_of(s, i3 + 1, mqe);
            assert(s.subrange(i3 + 1, mqe) =~= message_month);
            assert(parse_string(s, i3) == Some((message_month, i4)));
            assert(s.subrange(i4, i5) =~= l3);
            assert(lit_end(s, i4, l3) == Some(i5));
            if include_topic {
                assert(s.subrange(i5, i6) =~= "true"@);
                assert(lit_end(s, i5, "true"@) == Some(i6));
            } else {
                assert(s.subrange(i5, i6) =~= "false"@);
                if i5 + 4 <= s.len() {
                    assert(s.subrange(i5, i5 + 4)[0] == s[i5]);
                    assert(s[i5] == 'f');
                    assert(s.subrange(i5, i5 + 4) != "true"@);
                }
                assert(lit_end(s, i5, "true"@) is None);
                assert(lit_end(s, i5, "false"@) == Some(i6));
            }
            assert(parse_bool(s, i5) == Some((include_topic, i6)));
            assert(s.subrange(i6, i7) =~= l4);
            assert(lit_end(s, i6, l4) == Some(i7));
            match timestamp {
                None => {
                    assert(tt == "null"@);
                    assert(s.subrange(i7, i7 + 4) =~= "null"@);
                    assert(lit_end(s, i7, "null"@) == Some(i8));
                    assert(parse_opt_i64(s, i7) == Some((None::<i64>, i8)));
                },
                Some(ts) => {
                    assert(tt == dec_rep_i64(ts as int));
                    assert(s[i7] == tt[0]);
                    if ts >= 0 {
                        crate::text::lemma_dec_rep_digits(ts as nat);
                        assert(crate::text::is_digit_char(s[i7]));
                    } else {
                        assert(s[i7] == '-');
                    }
                    if i7 + 4 <= s.len() {
                        assert(s.subrange(i7, i7 + 4)[0] == s[i7]);
                        assert(s.subrange(i7, i7 + 4) != "null"@);
                    }
                    assert(lit_end(s, i7, "null"@) is None);
                    assert(s.subrange(i7, i8) =~= tt);
                    assert(s[i8] == '}');
                    assert(!crate::text::is_digit_char(s[i8]));
                    lemma_parse_i64_of_rep(ts, s, i7);
                    assert(parse_opt_i64(s, i7) == Some((Some(ts), i8)));
                },
            }
            assert(s.subrange(i8, i8 + 1) =~= "}"@);
            assert(i8 + 1 == s.len());
            assert(lit_end(s, i8, "}"@) == Some(s.len() as int));
            assert(uaid.len() >= 1);
            assert(decode_checkstorage_req(s) matches Some(got) && got =~= r);
        },
    }
}

/// A literal token parses at a position that holds it, with no whitespace
/// in front.
proof fn lemma_tok_at(s: Seq<char>, i: int, l: Seq<char>)
    requires
        0 <= i,
        l.len() > 0,
        i + l.len() <= s.len(),
        s.subrange(i, i + l.len() as int) == l,
        !crate::text::is_ws_char(l[0]),
    ensures
        tok(s, i, l) == Some(i + l.len() as int),
{
    assert(s[i] == s.subrange(i, i + l.len() as int)[0]);
    assert(ws_end(s, i) == i);
}

/// A literal token does not match where the text differs from it.
proof fn lemma_tok_mismatch(s: Seq<char>, i: int, k: Seq<char>, d: int)
    requires
        0 <= i <= s.len(),
        i == s.len() || !crate::text::is_ws_char(s[i]),
        0 <= d < k.len(),
        i + d < s.len() ==> s[i + d] != k[d],
    ensures
        tok(s, i, k) is None,
{
    assert(ws_end(s, i) == i);
    if i + k.len() <= s.len() {
        assert(s.subrange(i, i + k.len() as int)[d] == s[i + d]);
        assert(s.subrange(i, i + k.len() as int) != k);
    }
}

/// The decode of `{"error":true,"error_msg":<msg>}` is always the
/// application error carrying `msg`, whatever response was expected.
pub proof fn lemma_error_envelope_decodes(msg: Seq<char>)
    requires
        text_wf(msg),
    ensures
        decode_response_spec("{\"error\":true,\"error_msg\":"@ + enc_str(msg) + "}"@)
            == DecodedV::ApplicationError(msg),
{
    reveal_strlit("{\"error\":true,\"error_msg\":");
    reveal_strlit("{");
    reveal_strlit("\"error\"");
    reveal_strlit(":");
    reveal_strlit("true");
    reveal_strlit(",");
    reveal_strlit("\"error_msg\"");
    reveal_strlit("}");
    let lp = "{\"error\":true,\"error_msg\":"@;
    let s = lp + enc_str(msg) + "}"@;
    assert(s.subrange(0, 1) =~= "{"@);
    lemma_tok_at(s, 0, "{"@);
    assert(s.subrange(1, 8) =~= "\"error\""@);
    lemma_tok_at(s, 1, "\"error\""@);
    assert(s.subrange(8, 9) =~= ":"@);
    lemma_tok_at(s, 8, ":"@);
    assert(s[9] == 't');
    assert(ws_end(s, 9) == 9);
    assert(s.subrange(9, 13) =~= "true"@);
    assert(lit_end(s, 9, "true"@) == Some(13int));
    assert(p_bool(s, 9) == Some((true, 13int)));
    assert(s.subrange(13, 14) =~= ","@);
    lemma_tok_at(s, 13, ","@);
    assert(s.subrange(14, 25) =~= "\"error_msg\""@);
    lemma_tok_at(s, 14, "\"error_msg\""@);
    assert(s.subrange(25, 26) =~= ":"@);
    lemma_tok_at(s, 25, ":"@);
    assert(s[26] == '"');
    assert(ws_end(s, 26) == 26);
    let qe = 27 + msg.len() as int;
    assert(s[qe] == '"');
    assert forall|k: int| 27 <= k < qe implies crate::text::is_text_char(#[trigger] s[k]) by {
        assert(s[k] == msg[k - 27]);
    }
    crate::text::lemma_scan_quote_of(s, 27, qe);
    assert(s.subrange(27, qe) =~= msg);
    assert(parse_string(s, 26) == Some((msg, qe + 1)));
    assert(p_str(s, 26) == Some((msg, qe + 1)));
    assert(s.subrange(qe + 1, qe + 2) =~= "}"@);
    lemma_tok_at(s, qe + 1, "}"@);
    assert(qe + 2 == s.len());
    assert(ws_end(s, qe + 2) == s.len());
    assert(obj_end(s, qe + 1));
    assert(err_probe(s) == Some((true, msg)));
}

/// The short-circuit is a shape probe, not an order probe: the envelope
/// with its two members the other way round carries the same error.
pub proof fn lemma_error_envelope_reordered(msg: Seq<char>)
    requires
        text_wf(msg),
    ensures
        decode_response_spec("{\"error_msg\":"@ + enc_str(msg) + ",\"error\":true}"@)
            == DecodedV::ApplicationError(msg),
{
    reveal_strlit("{\"error_msg\":");
    reveal_strlit(",\"error\":true}");
    reveal_strlit("{");
    reveal_strlit("\"error\"");
    reveal_strlit(":");
    reveal_strlit("true");
    reveal_strlit(",");
    reveal_strlit("\"error_msg\"");
    reveal_strlit("}");
    let lp = "{\"error_msg\":"@;
    let lt = ",\"error\":true}"@;
    let s = lp + enc_str(msg) + lt;
    assert(s.subrange(0, 1) =~= "{"@);
    lemma_tok_at(s, 0, "{"@);
    // the first key is error_msg, not error: they differ at the underscore
    assert(s[1] == '"');
    assert(s[7] == '_');
    lemma_tok_mismatch(s, 1, "\"error\""@, 6);
    assert(key_end(s, 1, "\"error\""@) is None);
    assert(s.subrange(1, 12) =~= "\"error_msg\""@);
    lemma_tok_at(s, 1, "\"error_msg\""@);
    assert(s.subrange(12, 13) =~= ":"@);
    lemma_tok_at(s, 12, ":"@);
    assert(s[13] == '"');
    assert(ws_end(s, 13) == 13);
    let qe = 14 + msg.len() as int;
    assert(s[qe] == '"');
    assert forall|k: int| 14 <= k < qe implies crate::text::is_text_char(#[trigger] s[k]) by {
        assert(s[k] == msg[k - 14]);
    }
    crate::text::lemma_scan_quote_of(s, 14, qe);
    assert(s.subrange(14, qe) =~= msg);
    assert(parse_string(s, 13) == Some((msg, qe + 1)));
    assert(p_str(s, 13) == Some((msg, qe + 1)));
    let q = qe + 1;
    assert(s[q] == ',');
    assert(s.subrange(q, q + 1) =~= ","@);
    lemma_tok_at(s, q, ","@);
    assert(s.subrange(q + 1, q + 8) =~= "\"error\""@);
    lemma_tok_at(s, q + 1, "\"error\""@);
    assert(s.subrange(q + 8, q + 9) =~= ":"@);
    lemma_tok_at(s, q + 8, ":"@);
    assert(s[q + 9] == 't');
    assert(ws_end(s, q + 9) == q + 9);
    assert(s.subrange(q + 9, q + 13) =~= "true"@);
    assert(lit_end(s, q + 9, "true"@) == Some(q + 13));
    assert(p_bool(s, q + 9) == Some((true, q + 13)));
    assert(s.subrange(q + 13, q + 14) =~= "}"@);
    lemma_tok_at(s, q + 13, "}"@);
    assert(q + 14 == s.len());
    assert(ws_end(s, q + 14) == s.len());
    assert(obj_end(s, q + 13));
    assert(err_probe(s) == Some((true, msg)));
}

/// The canonical text of a successful hello answer.
#[verifier::opaque]
pub open spec fn hello_answer_text(h: HelloResponseV) -> Seq<char> {
    "{"@ + (match h.uaid {
        Some(u) => "\"uaid\""@ + ":"@ + enc_str(u) + ","@,
        None => Seq::empty(),
    }) + "\"message_month\""@ + ":"@ + enc_str(h.message_month) + ","@ + "\"reset_uaid\""@ + ":"@
        + enc_bool(h.reset_uaid) + ","@ + "\"rotate_message_table\""@ + ":"@ + enc_bool(
        h.rotate_message_table,
    ) + "}"@
}

pub open spec fn hello_resp_wf(h: HelloResponseV) -> bool {
    (h.uaid matches Some(u) ==> crate::protocol::id_wf(u)) && text_wf(h.message_month)
}

/// The slot a `uaid` member leaves behind stands for the answer's uaid.
pub open spec fn uaid_slot_of(u: Option<Option<Seq<char>>>) -> Option<Seq<char>> {
    match u {
        Some(Some(x)) => Some(x),
        _ => None,
    }
}

/// The last member of a canonical answer, then the closing brace.
#[verifier::rlimit(100)]
proof fn lemma_member_rot(
    s: Seq<char>,
    pre: Seq<char>,
    h: HelloResponseV,
    uaid: Option<Option<Seq<char>>>,
    fuel: nat,
)
    requires
        fuel >= 1,
        s == pre + "\"rotate_message_table\""@ + ":"@ + enc_bool(h.rotate_message_table) + "}"@,
        uaid_slot_of(uaid) == h.uaid,
    ensures
        hello_members(
            s,
            pre.len() as int,
            uaid,
            Some(h.message_month),
            Some(h.reset_uaid),
            None,
            fuel,
        ) == Some(h),
{
    reveal_strlit("{");
    reveal_strlit("}");
    reveal_strlit(",");
    reveal_strlit(":");
    reveal_strlit("true");
    reveal_strlit("false");
    reveal_strlit("\"uaid\"");
    reveal_strlit("\"message_month\"");
    reveal_strlit("\"reset_uaid\"");
    reveal_strlit("\"rotate_message_table\"");
    let mi = pre.len() as int;
    let ko = "\"rotate_message_table\""@;
    assert(s[mi] == ko[0]);
    assert(s[mi] == '"');
    assert(s[mi + 1] == ko[1]);
    lemma_tok_mismatch(s, mi, "\"uaid\""@, 1);
    assert(key_end(s, mi, "\"uaid\""@) is None);
    lemma_tok_mismatch(s, mi, "\"message_month\""@, 1);
    assert(key_end(s, mi, "\"message_month\""@) is None);
    assert(s[mi + 2] == ko[2]);
    lemma_tok_mismatch(s, mi, "\"reset_uaid\""@, 2);
    assert(key_end(s, mi, "\"reset_uaid\""@) is None);
    assert(s.subrange(mi, mi + 22) =~= ko);
    lemma_tok_at(s, mi, ko);
    assert(s.subrange(mi + 22, mi + 23) =~= ":"@);
    lemma_tok_at(s, mi + 22, ":"@);
    let c = mi + 23;
    let ob = enc_bool(h.rotate_message_table);
    assert(s.subrange(c, c + ob.len() as int) =~= ob);
    assert(s[c] == ob[0]);
    assert(ws_end(s, c) == c);
    if h.rotate_message_table {
        assert(lit_end(s, c, "true"@) == Some(c + 4));
    } else {
        if c + 4 <= s.len() {
            assert(s.subrange(c, c + 4)[0] == 'f');
            assert(s.subrange(c, c + 4) != "true"@);
        }
        assert(lit_end(s, c, "true"@) is None);
        assert(lit_end(s, c, "false"@) == Some(c + 5));
    }
    let e = c + ob.len() as int;
    assert(p_bool(s, c) == Some((h.rotate_message_table, e)));
    assert(s.subrange(e, e + 1) =~= "}"@);
    lemma_tok_at(s, e, "}"@);
    assert(e + 1 == s.len());
    assert(ws_end(s, e + 1) == s.len());
    assert(obj_end(s, e));
    assert(hello_finish(uaid, Some(h.message_month), Some(h.reset_uaid), Some(
        h.rotate_message_table,
    )) matches Some(got) && got =~= h);
}

/// The reset flag, then the last member.
#[verifier::rlimit(100)]
proof fn lemma_member_reset(
    s: Seq<char>,
    pre: Seq<char>,
    h: HelloResponseV,
    uaid: Option<Option<Seq<char>>>,
    fuel: nat,
)
    requires
        fuel >= 2,
        s == pre + "\"reset_uaid\""@ + ":"@ + enc_bool(h.reset_uaid) + ","@
            + "\"rotate_message_table\""@ + ":"@ + enc_bool(h.rotate_message_table) + "}"@,
        uaid_slot_of(uaid) == h.uaid,
    ensures
        hello_members(s, pre.len() as int, uaid, Some(h.message_month), None, None, fuel) == Some(
            h,
        ),
{
    reveal_strlit("{");
    reveal_strlit("}");
    reveal_strlit(",");
    reveal_strlit(":");
    reveal_strlit("true");
    reveal_strlit("false");
    reveal_strlit("\"uaid\"");
    reveal_strlit("\"message_month\"");
    reveal_strlit("\"reset_uaid\"");
    reveal_strlit("\"rotate_message_table\"");
    let mi = pre.len() as int;
    let kr = "\"reset_uaid\""@;
    assert(s[mi] == kr[0]);
    assert(s[mi] == '"');
    assert(s[mi + 1] == kr[1]);
    lemma_tok_mismatch(s, mi, "\"uaid\""@, 1);
    assert(key_end(s, mi, "\"uaid\""@) is None);
    lemma_tok_mismatch(s, mi, "\"message_month\""@, 1);
    assert(key_end(s, mi, "\"message_month\""@) is None);
    assert(s.subrange(mi, mi + 12) =~= kr);
    lemma_tok_at(s, mi, kr);
    assert(s.subrange(mi + 12, mi + 13) =~= ":"@);
    lemma_tok_at(s, mi + 12, ":"@);
    let c = mi + 13;
    let rb = enc_bool(h.reset_uaid);
    assert(s.subrange(c, c + rb.len() as int) =~= rb);
    assert(s[c] == rb[0]);
    assert(ws_end(s, c) == c);
    if h.reset_uaid {
        assert(lit_end(s, c, "true"@) == Some(c + 4));
    } else {
        if c + 4 <= s.len() {
            assert(s.subrange(c, c + 4)[0] == 'f');
            assert(s.subrange(c, c + 4) != "true"@);
        }
        assert(lit_end(s, c, "true"@) is None);
        assert(lit_end(s, c, "false"@) == Some(c + 5));
    }
    let e = c + rb.len() as int;
    assert(p_bool(s, c) == Some((h.reset_uaid, e)));
    assert(s[e] == ',');
    lemma_tok_mismatch(s, e, "}"@, 0);
    assert(!obj_end(s, e));
    assert(s.subrange(e, e + 1) =~= ","@);
    lemma_tok_at(s, e, ","@);
    let pre2 = pre + kr + ":"@ + rb + ","@;
    assert(s =~= pre2 + "\"rotate_message_table\""@ + ":"@ + enc_bool(h.rotate_message_table)
        + "}"@);
    lemma_member_rot(s, pre2, h, uaid, (fuel - 1) as nat);
    assert(pre2.len() == e + 1);
}

/// The month, then the two flags.
#[verifier::rlimit(100)]
proof fn lemma_member_month(
    s: Seq<char>,
    pre: Seq<char>,
    h: HelloResponseV,
    uaid: Option<Option<Seq<char>>>,
    fuel: nat,
)
    requires
        fuel >= 3,
        text_wf(h.message_month),
        s == pre + "\"message_month\""@ + ":"@ + enc_str(h.message_month) + ","@
            + "\"reset_uaid\""@ + ":"@ + enc_bool(h.reset_uaid) + ","@
            + "\"rotate_message_table\""@ + ":"@ + enc_bool(h.rotate_message_table) + "}"@,
        uaid_slot_of(uaid) == h.uaid,
    ensures
        hello_members(s, pre.len() as int, uaid, None, None, None, fuel) == Some(h),
{
    reveal_strlit("{");
    reveal_strlit("}");
    reveal_strlit(",");
    reveal_strlit(":");
    reveal_strlit("\"uaid\"");
    reveal_strlit("\"message_month\"");
    let mi = pre.len() as int;
    let km = "\"message_month\""@;
    assert(s[mi] == km[0]);
    assert(s[mi] == '"');
    assert(s[mi + 1] == km[1]);
    lemma_tok_mismatch(s, mi, "\"uaid\""@, 1);
    assert(key_end(s, mi, "\"uaid\""@) is None);
    assert(s.subrange(mi, mi + 15) =~= km);
    lemma_tok_at(s, mi, km);
    assert(s.subrange(mi + 15, mi + 16) =~= ":"@);
    lemma_tok_at(s, mi + 15, ":"@);
    let c = mi + 16;
    assert(s[c] == '"');
    assert(ws_end(s, c) == c);
    let qe = c + 1 + h.message_month.len() as int;
    assert(s[qe] == '"');
    assert forall|k: int| c + 1 <= k < qe implies crate::text::is_text_char(#[trigger] s[k]) by {
        assert(s[k] == h.message_month[k - (c + 1)]);
    }
    crate::text::lemma_scan_quote_of(s, c + 1, qe);
    assert(s.subrange(c + 1, qe) =~= h.message_month);
    assert(parse_string(s, c) == Some((h.message_month, qe + 1)));
    assert(p_str(s, c) == Some((h.message_month, qe + 1)));
    let e = qe + 1;
    assert(s[e] == ',');
    lemma_tok_mismatch(s, e, "}"@, 0);
    assert(!obj_end(s, e));
    assert(s.subrange(e, e + 1) =~= ","@);
    lemma_tok_at(s, e, ","@);
    let pre2 = pre + km + ":"@ + enc_str(h.message_month) + ","@;
    assert(s =~= pre2 + "\"reset_uaid\""@ + ":"@ + enc_bool(h.reset_uaid) + ","@
        + "\"rotate_message_table\""@ + ":"@ + enc_bool(h.rotate_message_table) + "}"@);
    lemma_member_reset(s, pre2, h, uaid, (fuel - 1) as nat);
    assert(pre2.len() == e + 1);
}

/// The leading `uaid` member of a canonical answer, then the rest.
#[verifier::rlimit(100)]
proof fn lemma_member_uaid(s: Seq<char>, h: HelloResponseV, u: Seq<char>, fuel: nat)
    requires
        fuel >= 4,
        crate::protocol::id_wf(u),
        text_wf(h.message_month),
        h.uaid == Some(u),
        s == "{"@ + "\"uaid\""@ + ":"@ + enc_str(u) + ","@ + "\"message_month\""@ + ":"@
            + enc_str(h.message_month) + ","@ + "\"reset_uaid\""@ + ":"@ + enc_bool(h.reset_uaid)
            + ","@ + "\"rotate_message_table\""@ + ":"@ + enc_bool(h.rotate_message_table) + "}"@,
    ensures
        hello_members(s, 1, None, None, None, None, fuel) == Some(h),
{
    reveal_strlit("{");
    reveal_strlit("}");
    reveal_strlit(",");
    reveal_strlit(":");
    reveal_strlit("null");
    reveal_strlit("\"uaid\"");
    reveal_strlit("\"message_month\"");
    let ku = "\"uaid\""@;
    let km = "\"message_month\""@;
    assert(s.subrange(1, 7) =~= ku);
    assert(s[1] == '"');
    lemma_tok_at(s, 1, ku);
    assert(s.subrange(7, 8) =~= ":"@);
    lemma_tok_at(s, 7, ":"@);
    assert(s[8] == '"');
    assert(ws_end(s, 8) == 8);
    if 8 + 4 <= s.len() {
        assert(s.subrange(8, 12)[0] == '"');
        assert(s.subrange(8, 12) != "null"@);
    }
    assert(lit_end(s, 8, "null"@) is None);
    let qe = 9 + u.len() as int;
    assert(s[qe] == '"');
    assert forall|k: int| 9 <= k < qe implies crate::text::is_text_char(#[trigger] s[k]) by {
        assert(s[k] == u[k - 9]);
    }
    crate::text::lemma_scan_quote_of(s, 9, qe);
    assert(s.subrange(9, qe) =~= u);
    assert(parse_string(s, 8) == Some((u, qe + 1)));
    assert(p_opt_id(s, 8) == Some((Some(u), qe + 1)));
    let e = qe + 1;
    assert(s[e] == ',');
    lemma_tok_mismatch(s, e, "}"@, 0);
    assert(!obj_end(s, e));
    assert(s.subrange(e, e + 1) =~= ","@);
    lemma_tok_at(s, e, ","@);
    let pre2 = "{"@ + ku + ":"@ + enc_str(u) + ","@;
    assert(s =~= pre2 + km + ":"@ + enc_str(h.message_month) + ","@ + "\"reset_uaid\""@ + ":"@
        + enc_bool(h.reset_uaid) + ","@ + "\"rotate_message_table\""@ + ":"@ + enc_bool(
        h.rotate_message_table,
    ) + "}"@);
    lemma_member_month(s, pre2, h, Some(Some(u)), (fuel - 1) as nat);
    assert(pre2.len() == e + 1);
}

/// Every well-formed hello answer decodes to exactly the domain object it
/// spells out: success is owed whenever the external service answers in
/// shape.
#[verifier::rlimit(100)]
pub proof fn lemma_hello_answer_decodes(h: HelloResponseV)
    requires
        hello_resp_wf(h),
    ensures
        decode_response_spec(hello_answer_text(h)) == DecodedV::Response(h),
{
    reveal(hello_answer_text);
    reveal_strlit("{");
    reveal_strlit("}");
    reveal_strlit(",");
    reveal_strlit(":");
    reveal_strlit("\"error\"");
    reveal_strlit("\"error_msg\"");
    reveal_strlit("\"uaid\"");
    reveal_strlit("\"message_month\"");
    let s = hello_answer_text(h);
    let ku = "\"uaid\""@;
    let km = "\"message_month\""@;
    assert(s.subrange(0, 1) =~= "{"@);
    lemma_tok_at(s, 0, "{"@);
    // the error probe does not match: neither of its keys opens the object
    let k1 = if h.uaid is Some {
        ku
    } else {
        km
    };
    assert(s[1] == k1[0]);
    assert(s[1] == '"');
    assert(s[2] == k1[1]);
    lemma_tok_mismatch(s, 1, "\"error\""@, 1);
    assert(key_end(s, 1, "\"error\""@) is None);
    lemma_tok_mismatch(s, 1, "\"error_msg\""@, 1);
    assert(key_end(s, 1, "\"error_msg\""@) is None);
    assert(err_probe(s) is None);
    // the members
    match h.uaid {
        Some(u) => {
            assert(s =~= "{"@ + ku + ":"@ + enc_str(u) + ","@ + km + ":"@ + enc_str(
                h.message_month,
            ) + ","@ + "\"reset_uaid\""@ + ":"@ + enc_bool(h.reset_uaid) + ","@
                + "\"rotate_message_table\""@ + ":"@ + enc_bool(h.rotate_message_table) + "}"@);
            lemma_member_uaid(s, h, u, 4);
            assert(decode_hello_resp(s) == Some(h));
        },
        None => {
            assert(s =~= "{"@ + km + ":"@ + enc_str(h.message_month) + ","@ + "\"reset_uaid\""@
                + ":"@ + enc_bool(h.reset_uaid) + ","@ + "\"rotate_message_table\""@ + ":"@
                + enc_bool(h.rotate_message_table) + "}"@);
            lemma_member_month(s, "{"@, h, None, 4);
            assert("{"@.len() == 1);
            assert(decode_hello_resp(s) == Some(h));
        },
    }
}

/// Decodes a completion text: probes for the generic error envelope and
/// short-circuits to an application error when `error` is true; otherwise
/// strictly decodes the expected domain object.
pub fn decode_response(s: &[char]) -> (r: Decoded)
    ensures
        r@ == decode_response_spec(s@),
{
    match err_probe_exec(s) {
        Some(p) => {
            if p.0 {
                return Decoded::ApplicationError(p.1);
            }
        },
        None => {},
    }
    match decode_hello_resp_exec(s) {
        Some(h) => Decoded::Response(h),
        None => Decoded::DeserializationError,
    }
}

} // verus!
