//! PromQL request building: the expressions the metrics panel asks for, the
//! in-cluster Prometheus address, the query-string encoding, and the error
//! kinds a query can end in. Sending the request and reading the numeric
//! samples is the host's job.

use vstd::prelude::*;

use vstd::string::StringSliceAdditionalSpecFns;

use crate::text::{concat, decimal, decimal_digits, push_char, text_eq, text_of};

verus! {

/// Why a Prometheus query failed.
#[derive(Debug, Clone, PartialEq)]
pub enum PromError {
    /// HTTP request returned non-2xx.
    Http(u16, String),
    /// JSON parse failed.
    Parse(String),
    /// Prometheus returned `"status": "error"` with a non-empty `errorType`.
    Query(String),
    /// Prometheus returned success with an empty `result` array.
    Empty,
}

/// The user-facing text of each error.
pub open spec fn prom_error_text(e: PromError) -> Seq<char> {
    match e {
        PromError::Http(code, body) => "prometheus http "@ + decimal_digits(code as nat) + ": "@
            + body@,
        PromError::Parse(msg) => "prometheus json parse: "@ + msg@,
        PromError::Query(msg) => "prometheus query error: "@ + msg@,
        PromError::Empty => "prometheus returned no series"@,
    }
}

impl PromError {
    /// The user-facing text of this error.
    pub fn message(&self) -> (r: String)
        ensures
            r@ == prom_error_text(*self),
    {
        match self {
            PromError::Http(code, body) => {
                let mut r = String::from_str("prometheus http ");
                r.append(decimal(*code as u64).as_str());
                r.append(": ");
                r.append(body.as_str());
                r
            },
            PromError::Parse(msg) => {
                let mut r = String::from_str("prometheus json parse: ");
                r.append(msg.as_str());
                r
            },
            PromError::Query(msg) => {
                let mut r = String::from_str("prometheus query error: ");
                r.append(msg.as_str());
                r
            },
            PromError::Empty => String::from_str("prometheus returned no series"),
        }
    }
}

/// The per-pod CPU usage rate expression (cores).
pub open spec fn pod_cpu_expr(namespace: Seq<char>, pod: Seq<char>) -> Seq<char> {
    "sum(rate(container_cpu_usage_seconds_total{namespace=\""@ + namespace + "\",pod=\""@ + pod
        + "\",container!=\"\"}[2m]))"@
}

/// The per-pod working-set memory expression (bytes).
pub open spec fn pod_memory_expr(namespace: Seq<char>, pod: Seq<char>) -> Seq<char> {
    "sum(container_memory_working_set_bytes{namespace=\""@ + namespace + "\",pod=\""@ + pod
        + "\",container!=\"\"}) by (pod)"@
}

/// Build a PromQL expression that returns the per-pod CPU usage rate
/// (cores). Uses `rate(container_cpu_usage_seconds_total[2m])`.
pub fn build_pod_cpu_expr(namespace: &str, pod: &str) -> (r: String)
    ensures
        r@ == pod_cpu_expr(namespace@, pod@),
{
    let mut r = String::from_str("sum(rate(container_cpu_usage_seconds_total{namespace=\"");
    r.append(namespace);
    r.append("\",pod=\"");
    r.append(pod);
    r.append("\",container!=\"\"}[2m]))");
    r
}

/// Build a PromQL expression that returns the per-pod working-set
/// memory in bytes. Uses `container_memory_working_set_bytes`.
pub fn build_pod_memory_expr(namespace: &str, pod: &str) -> (r: String)
    ensures
        r@ == pod_memory_expr(namespace@, pod@),
{
    let mut r = String::from_str("sum(container_memory_working_set_bytes{namespace=\"");
    r.append(namespace);
    r.append("\",pod=\"");
    r.append(pod);
    r.append("\",container!=\"\"}) by (pod)");
    r
}

/// The in-cluster address of a Prometheus service (port 9090, plain HTTP),
/// in namespace `monitoring` unless another is given.
pub open spec fn base_url(service: Seq<char>, namespace: Option<Seq<char>>) -> Seq<char> {
    let ns = match namespace {
        Some(n) => n,
        None => "monitoring"@,
    };
    "http://"@ + service + "."@ + ns + ".svc.cluster.local:9090"@
}

/// Compose the in-cluster Prometheus URL from the detected service name.
/// Default port 9090; HTTPS = no.
pub fn prometheus_base_url(service: &str, namespace: Option<&str>) -> (r: String)
    ensures
        r@ == base_url(
            service@,
            match namespace {
                Some(n) => Some(n@),
                None => None,
            },
        ),
{
    let mut r = String::from_str("http://");
    r.append(service);
    r.append(".");
    match namespace {
        Some(n) => r.append(n),
        None => r.append("monitoring"),
    }
    r.append(".svc.cluster.local:9090");
    r
}

/// Bytes that pass through the query string unescaped.
pub open spec fn is_unreserved(b: u8) -> bool {
    (65 <= b <= 90) || (97 <= b <= 122) || (48 <= b <= 57) || b == 45 || b == 46 || b == 95
        || b == 126
}

/// The upper-case hexadecimal digit for `n` (below sixteen).
pub open spec fn hex_digit(n: nat) -> char {
    if n < 10 {
        (48 + n) as char
    } else {
        (55 + n) as char
    }
}

/// One byte of a query string: itself when unreserved, else `%XX`.
pub open spec fn encode_byte(b: u8) -> Seq<char> {
    if is_unreserved(b) {
        seq![b as char]
    } else {
        seq!['%', hex_digit((b / 16) as nat), hex_digit((b % 16) as nat)]
    }
}

/// The query-string encoding of a byte sequence.
pub open spec fn encode_bytes(bs: Seq<u8>) -> Seq<char>
    decreases bs.len(),
{
    if bs.len() == 0 {
        Seq::empty()
    } else {
        encode_bytes(bs.drop_last()) + encode_byte(bs.last())
    }
}

fn unreserved(b: u8) -> (r: bool)
    ensures
        r == is_unreserved(b),
{
    (65 <= b && b <= 90) || (97 <= b && b <= 122) || (48 <= b && b <= 57) || b == 45 || b == 46
        || b == 95 || b == 126
}

fn hex(n: u8) -> (c: char)
    requires
        n < 16,
    ensures
        c == hex_digit(n as nat),
{
    if n < 10 {
        (48u8 + n) as char
    } else {
        (55u8 + n) as char
    }
}

/// URL-encode a PromQL expression for `query=…`: each UTF-8 byte outside
/// `A-Z a-z 0-9 - . _ ~` becomes `%XX` with upper-case hex digits.
pub fn url_encode_query(expr: &str) -> (r: String)
    ensures
        r@ == encode_bytes(expr.spec_bytes()),
{
    let bytes = expr.as_bytes();
    let mut out = String::new();
    let mut i: usize = 0;
    while i < bytes.len()
        invariant
            i <= bytes@.len(),
            bytes@ == expr.spec_bytes(),
            out@ == encode_bytes(bytes@.subrange(0, i as int)),
        decreases bytes@.len() - i,
    {
        let b = bytes[i];
        let ghost before = out@;
        if unreserved(b) {
            push_char(&mut out, b as char);
        } else {
            push_char(&mut out, '%');
            push_char(&mut out, hex(b / 16));
            push_char(&mut out, hex(b % 16));
        }
        assert(out@ =~= before + encode_byte(b));
        assert(bytes@.subrange(0, i + 1).drop_last() =~= bytes@.subrange(0, i as int));
        i = i + 1;
    }
    assert(bytes@.subrange(0, i as int) =~= bytes@);
    out
}

proof fn lemma_encoded_chars(bs: Seq<u8>)
    ensures
        forall|i: int|
            0 <= i < encode_bytes(bs).len() ==> #[trigger] encode_bytes(bs)[i] != ' '
                && encode_bytes(bs)[i] != '"',
    decreases bs.len(),
{
    if bs.len() > 0 {
        lemma_encoded_chars(bs.drop_last());
        let pre = encode_bytes(bs.drop_last());
        let b = bs.last();
        assert forall|i: int| 0 <= i < encode_bytes(bs).len() implies #[trigger] encode_bytes(
            bs,
        )[i] != ' ' && encode_bytes(bs)[i] != '"' by {
            if i >= pre.len() {
                let k = i - pre.len();
                if is_unreserved(b) {
                    assert(encode_bytes(bs)[i] == b as char);
                } else {
                    assert(encode_bytes(bs)[i] == encode_byte(b)[k]);
                }
            } else {
                assert(encode_bytes(bs)[i] == pre[i]);
            }
        }
    }
}

proof fn lemma_unreserved_unchanged(bs: Seq<u8>)
    requires
        forall|i: int| 0 <= i < bs.len() ==> is_unreserved(#[trigger] bs[i]),
    ensures
        encode_bytes(bs) == bs.map_values(|b: u8| b as char),
    decreases bs.len(),
{
    if bs.len() > 0 {
        let init = bs.drop_last();
        assert forall|i: int| 0 <= i < init.len() implies is_unreserved(#[trigger] init[i]) by {
            assert(init[i] == bs[i]);
        }
        lemma_unreserved_unchanged(init);
        assert(is_unreserved(bs[bs.len() - 1]));
        assert(encode_bytes(bs) =~= bs.map_values(|b: u8| b as char));
    } else {
        assert(encode_bytes(bs) =~= bs.map_values(|b: u8| b as char));
    }
}

/// The query encoding never lets a space or a double quote through, and
/// leaves a text made only of unreserved bytes as it is.
pub proof fn law_query_encoding_escapes_reserved_bytes(bs: Seq<u8>)
    ensures
        !encode_bytes(bs).contains(' '),
        !encode_bytes(bs).contains('"'),
        (forall|i: int| 0 <= i < bs.len() ==> is_unreserved(#[trigger] bs[i])) ==> encode_bytes(bs)
            == bs.map_values(|b: u8| b as char),
{
    lemma_encoded_chars(bs);
    if forall|i: int| 0 <= i < bs.len() ==> is_unreserved(#[trigger] bs[i]) {
        lemma_unreserved_unchanged(bs);
    }
}

/// The characters a query string may hold after encoding: ASCII letters and
/// digits, `-`, `.`, `_`, `~`, and the `%` that starts an escape.
pub open spec fn query_safe(c: char) -> bool {
    ('A' <= c && c <= 'Z') || ('a' <= c && c <= 'z') || ('0' <= c && c <= '9') || c == '-'
        || c == '.' || c == '_' || c == '~' || c == '%'
}

/// An upper-case hexadecimal digit.
pub open spec fn upper_hex(c: char) -> bool {
    ('0' <= c && c <= '9') || ('A' <= c && c <= 'F')
}

proof fn lemma_encoded_safe(bs: Seq<u8>)
    ensures
        forall|i: int| 0 <= i < encode_bytes(bs).len() ==> query_safe(#[trigger] encode_bytes(bs)[i]),
    decreases bs.len(),
{
    if bs.len() > 0 {
        lemma_encoded_safe(bs.drop_last());
        let pre = encode_bytes(bs.drop_last());
        let b = bs.last();
        assert forall|i: int| 0 <= i < encode_bytes(bs).len() implies query_safe(
            #[trigger] encode_bytes(bs)[i],
        ) by {
            if i >= pre.len() {
                let k = i - pre.len();
                assert(encode_bytes(bs)[i] == encode_byte(b)[k]);
                if !is_unreserved(b) {
                    assert(b / 16 < 16 && b % 16 < 16);
                }
            } else {
                assert(encode_bytes(bs)[i] == pre[i]);
            }
        }
    }
}

/// Query-string encoding: every output character is an unreserved ASCII
/// character or `%`, so `+`, `&`, `=`, spaces and the like never pass
/// through; and a byte outside `A-Z a-z 0-9 - . _ ~` becomes exactly `%`
/// and two upper-case hex digits, while an unreserved byte stays itself.
pub proof fn law_query_encoding_is_percent_encoding(bs: Seq<u8>, b: u8)
    ensures
        forall|i: int| 0 <= i < encode_bytes(bs).len() ==> query_safe(#[trigger] encode_bytes(bs)[i]),
        !encode_bytes(bs).contains('+'),
        !encode_bytes(bs).contains('&'),
        !encode_bytes(bs).contains('='),
        encode_bytes(bs.push(b)) == encode_bytes(bs) + encode_byte(b),
        ((65 <= b <= 90) || (97 <= b <= 122) || (48 <= b <= 57) || b == 45 || b == 46 || b == 95
            || b == 126) ==> encode_byte(b) == seq![b as char],
        !((65 <= b <= 90) || (97 <= b <= 122) || (48 <= b <= 57) || b == 45 || b == 46 || b == 95
            || b == 126) ==> encode_byte(b).len() == 3 && encode_byte(b)[0] == '%' && upper_hex(
            encode_byte(b)[1],
        ) && upper_hex(encode_byte(b)[2]) && encode_byte(b)[1] == hex_digit((b / 16) as nat)
            && encode_byte(b)[2] == hex_digit((b % 16) as nat),
{
    lemma_encoded_safe(bs);
    assert(bs.push(b).drop_last() =~= bs);
    assert(b / 16 < 16 && b % 16 < 16);
}

/// What the `status` field of a Prometheus reply decides: a missing status
/// is a parse error; `"error"` is a query error carrying the reply's
/// `error` text, else its `errorType`, else `unknown`; any status other than
/// `"success"` is a parse error naming it; `"success"` lets the caller read
/// the data.
pub open spec fn status_outcome(
    status: Option<Seq<char>>,
    error: Option<Seq<char>>,
    error_type: Option<Seq<char>>,
) -> Result<(), (nat, Seq<char>)> {
    match status {
        None => Err((0, "missing `status` field"@)),
        Some(s) => if s == "error"@ {
            Err(
                (
                    1,
                    match error {
                        Some(e) => e,
                        None => match error_type {
                            Some(t) => t,
                            None => "unknown"@,
                        },
                    },
                ),
            )
        } else if s != "success"@ {
            Err((0, "unknown status `"@ + s + "`"@))
        } else {
            Ok(())
        },
    }
}

/// The character view of an optional borrowed text.
pub open spec fn opt_text(o: Option<&str>) -> Option<Seq<char>> {
    match o {
        Some(s) => Some(s@),
        None => None,
    }
}

/// Check the `status` of a Prometheus reply (with its `error` and
/// `errorType` texts, each when present as a string) before its data is
/// read. Parse errors come back as `PromError::Parse`, query errors as
/// `PromError::Query`.
pub fn check_status(status: Option<&str>, error: Option<&str>, error_type: Option<&str>) -> (r:
    Result<(), PromError>)
    ensures
        match (r, status_outcome(opt_text(status), opt_text(error), opt_text(error_type))) {
            (Ok(()), Ok(())) => true,
            (Err(PromError::Parse(m)), Err((k, t))) => k == 0 && m@ == t,
            (Err(PromError::Query(m)), Err((k, t))) => k == 1 && m@ == t,
            _ => false,
        },
{
    let s = match status {
        None => return Err(PromError::Parse(text_of("missing `status` field"))),
        Some(s) => s,
    };
    if text_eq(s, "error") {
        let msg = match error {
            Some(e) => text_of(e),
            None => match error_type {
                Some(t) => text_of(t),
                None => text_of("unknown"),
            },
        };
        return Err(PromError::Query(msg));
    }
    if !text_eq(s, "success") {
        let head = concat("unknown status `", s);
        return Err(PromError::Parse(concat(head.as_str(), "`")));
    }
    Ok(())
}

} // verus!
