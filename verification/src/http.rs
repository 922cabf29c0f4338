//! HTTP token parsing: the closed sets of versions and status codes, the
//! known method tokens, and the opaque message body.

use vstd::prelude::*;
use crate::bytes::{first_occ, is_prefix, slice_eq, starts_with};
use crate::capture::StreamDirection;
use crate::header::{HeaderModel, HttpHeader, parse_client_head, parse_server_head};
use crate::error::{ProxyError, ProxyResult};

verus! {

/// The closed set of HTTP versions; any other version token on a request
/// or status line is a hard parse error.
#[derive(Clone, Copy, PartialEq, Eq, Structural, Debug)]
pub enum HttpVersion {
    Http10,
    Http11,
    Http20,
    Http30,
}

/// The closed set of known status codes; any other numeric code on a
/// status line is a hard parse error.
#[derive(Clone, Copy, PartialEq, Eq, Structural, Debug)]
pub enum HttpStatus {
    OK,
    PartialContent,
    NotModified,
}

/// The token `HTTP/1.0` as bytes.
pub open spec fn tok_http10() -> Seq<u8> {
    seq![72u8, 84, 84, 80, 47, 49, 46, 48]
}

/// The token `HTTP/1.1` as bytes.
pub open spec fn tok_http11() -> Seq<u8> {
    seq![72u8, 84, 84, 80, 47, 49, 46, 49]
}

/// The token `HTTP/2.0` as bytes.
pub open spec fn tok_http20() -> Seq<u8> {
    seq![72u8, 84, 84, 80, 47, 50, 46, 48]
}

/// The token `HTTP/3.0` as bytes.
pub open spec fn tok_http30() -> Seq<u8> {
    seq![72u8, 84, 84, 80, 47, 51, 46, 48]
}

/// The version a literal token stands for, if it is one of the closed set.
pub open spec fn version_of_token(tok: Seq<u8>) -> Option<HttpVersion> {
    if tok == tok_http10() {
        Some(HttpVersion::Http10)
    } else if tok == tok_http11() {
        Some(HttpVersion::Http11)
    } else if tok == tok_http20() {
        Some(HttpVersion::Http20)
    } else if tok == tok_http30() {
        Some(HttpVersion::Http30)
    } else {
        None
    }
}

/// `b` is an ASCII decimal digit.
pub open spec fn is_ascii_digit(b: u8) -> bool {
    48 <= b <= 57
}

/// Every byte of `s` is an ASCII decimal digit.
pub open spec fn all_digits(s: Seq<u8>) -> bool {
    forall|j: int| 0 <= j < s.len() ==> is_ascii_digit(s[j])
}

/// The value of a digit string read in base ten.
pub open spec fn dec_val(s: Seq<u8>) -> int
    decreases s.len(),
{
    if s.len() == 0 {
        0
    } else {
        dec_val(s.drop_last()) * 10 + (s.last() - 48)
    }
}

/// A digit string's value, or `None` if it is empty or not all digits.
pub open spec fn digits_value(ds: Seq<u8>) -> Option<int> {
    if ds.len() > 0 && all_digits(ds) {
        Some(dec_val(ds))
    } else {
        None
    }
}

/// The integer a token denotes: an optional sign followed by one or more
/// digits, as the standard library's integer parser reads it.
pub open spec fn int_token_value(s: Seq<u8>) -> Option<int> {
    if s.len() == 0 {
        None
    } else if s[0] == 43 {
        digits_value(s.skip(1))
    } else if s[0] == 45 {
        match digits_value(s.skip(1)) {
            Some(v) => Some(-v),
            None => None,
        }
    } else {
        digits_value(s)
    }
}

/// The status of the closed known set that an integer value denotes.
pub open spec fn status_of_code(v: Option<int>) -> Option<HttpStatus> {
    if v == Some(200int) {
        Some(HttpStatus::OK)
    } else if v == Some(206int) {
        Some(HttpStatus::PartialContent)
    } else if v == Some(304int) {
        Some(HttpStatus::NotModified)
    } else {
        None
    }
}

/// The message a rejected status-code token is reported with.
pub open spec fn status_err_msg(code: Seq<u8>) -> Seq<char> {
    if code.len() == 0 {
        "empty status code"@
    } else {
        "unknown HTTP status code"@
    }
}

/// A digit string's value is never negative.
pub proof fn lemma_dec_val_nonneg(s: Seq<u8>)
    requires
        all_digits(s),
    ensures
        dec_val(s) >= 0,
    decreases s.len(),
{
    if s.len() > 0 {
        assert(all_digits(s.drop_last()));
        lemma_dec_val_nonneg(s.drop_last());
    }
}

impl HttpVersion {
    /// Parses the version token of a request or status line: exactly the
    /// four literals of the closed set are accepted.
    pub fn from_stream_raw(ver: &[u8]) -> (r: ProxyResult<HttpVersion>)
        ensures
            match r {
                Ok(v) => version_of_token(ver@) == Some(v),
                Err(e) => version_of_token(ver@) is None && e@ == "unknown HTTP version token"@,
            },
    {
        // "HTTP/1." and the minor version digit, in ASCII
        let t10: Vec<u8> = vec![72u8, 84, 84, 80, 47, 49, 46, 48];
        let t11: Vec<u8> = vec![72u8, 84, 84, 80, 47, 49, 46, 49];
        let t20: Vec<u8> = vec![72u8, 84, 84, 80, 47, 50, 46, 48];
        let t30: Vec<u8> = vec![72u8, 84, 84, 80, 47, 51, 46, 48];
        proof {
            assert(t10@ =~= tok_http10());
            assert(t11@ =~= tok_http11());
            assert(t20@ =~= tok_http20());
            assert(t30@ =~= tok_http30());
        }
        if slice_eq(ver, t10.as_slice()) {
            Ok(HttpVersion::Http10)
        } else if slice_eq(ver, t11.as_slice()) {
            Ok(HttpVersion::Http11)
        } else if slice_eq(ver, t20.as_slice()) {
            Ok(HttpVersion::Http20)
        } else if slice_eq(ver, t30.as_slice()) {
            Ok(HttpVersion::Http30)
        } else {
            Err(ProxyError::from_msg("unknown HTTP version token"))
        }
    }
}

impl HttpStatus {
    /// Parses the status-code token of a status line: the token must denote
    /// an integer, and only the known codes 200, 206 and 304 are accepted.
    pub fn from_stream_raw(code: &[u8]) -> (r: ProxyResult<HttpStatus>)
        ensures
            (r matches Ok(s) && s == HttpStatus::OK) <==> int_token_value(code@) == Some(200int),
            (r matches Ok(s) && s == HttpStatus::PartialContent) <==> int_token_value(code@)
                == Some(206int),
            (r matches Ok(s) && s == HttpStatus::NotModified) <==> int_token_value(code@)
                == Some(304int),
            r is Err <==> status_of_code(int_token_value(code@)) is None,
            r matches Err(e) ==> e@ == status_err_msg(code@),
    {
        let n: usize = code.len();
        if n == 0 {
            return Err(ProxyError::from_msg("empty status code"));
        }
        if code[0] == 45 {
            // a leading minus: the value, if any, is not positive
            proof {
                let ds = code@.skip(1);
                if digits_value(ds) is Some {
                    lemma_dec_val_nonneg(ds);
                }
            }
            return Err(ProxyError::from_msg("unknown HTTP status code"));
        }
        let start: usize = if code[0] == 43 { 1 } else { 0 };
        let ghost ds: Seq<u8> = code@.skip(start as int);
        let mut acc: u32 = 0;
        let mut i: usize = start;
        while i < n
            invariant
                n == code@.len(),
                n >= 1,
                start <= 1,
                (start == 1) <==> (code@[0] == 43),
                code@[0] != 45,
                start <= i <= n,
                ds == code@.skip(start as int),
                all_digits(code@.subrange(start as int, i as int)),
                ({
                    let pv = dec_val(code@.subrange(start as int, i as int));
                    &&& (pv < 100000 ==> acc == pv)
                    &&& (pv >= 100000 ==> acc >= 100000)
                    &&& acc <= 1000009
                }),
            decreases n - i,
        {
            let b = code[i];
            if b < 48 || b > 57 {
                proof {
                    assert(ds[i - start] == code@[i as int]);
                    assert(!all_digits(ds));
                    assert(digits_value(ds) is None);
                    if start == 0 {
                        assert(ds =~= code@);
                        assert(int_token_value(code@) == digits_value(ds));
                    } else {
                        assert(code@[0] == 43);
                        assert(code@.skip(1) == ds);
                        assert(int_token_value(code@) == digits_value(ds));
                    }
                    assert(int_token_value(code@) is None);
                }
                return Err(ProxyError::from_msg("unknown HTTP status code"));
            }
            proof {
                let pfx = code@.subrange(start as int, i as int);
                let pfx2 = code@.subrange(start as int, i + 1 as int);
                assert(pfx2.drop_last() =~= pfx);
                assert(pfx2.last() == code@[i as int]);
                lemma_dec_val_nonneg(pfx);
            }
            // saturate far above every accepted value, so the equality
            // tests below still decide exactly
            if acc < 100000 {
                acc = acc * 10 + ((b - 48) as u32);
            }
            i = i + 1;
        }
        if start == n {
            // a bare sign with no digits does not denote an integer
            return Err(ProxyError::from_msg("unknown HTTP status code"));
        }
        proof {
            assert(code@.subrange(start as int, n as int) =~= ds);
            if start == 0 {
                assert(ds =~= code@);
            }
        }
        if acc == 200 {
            Ok(HttpStatus::OK)
        } else if acc == 206 {
            Ok(HttpStatus::PartialContent)
        } else if acc == 304 {
            Ok(HttpStatus::NotModified)
        } else {
            Err(ProxyError::from_msg("unknown HTTP status code"))
        }
    }
}

/// The known request method tokens, used by the traffic aggregator to
/// spot the start of a new request message.
#[derive(Clone, Copy, PartialEq, Eq, Structural, Debug)]
pub enum HttpMethod {
    GET,
    POST,
    PUT,
    HEAD,
    CONNECT,
    TRACE,
    PATCH,
    OPTIONS,
    DELETE,
}

/// The method tokens as byte strings, in their fixed order.
pub open spec fn method_tokens() -> Seq<Seq<u8>> {
    seq![
        seq![71u8, 69, 84],  // GET
        seq![80u8, 79, 83, 84],  // POST
        seq![80u8, 85, 84],  // PUT
        seq![72u8, 69, 65, 68],  // HEAD
        seq![67u8, 79, 78, 78, 69, 67, 84],  // CONNECT
        seq![84u8, 82, 65, 67, 69],  // TRACE
        seq![80u8, 65, 84, 67, 72],  // PATCH
        seq![79u8, 80, 84, 73, 79, 78, 83],  // OPTIONS
        seq![68u8, 69, 76, 69, 84, 69],  // DELETE
    ]
}

/// `s` begins with one of the known method tokens.
pub open spec fn starts_with_method(s: Seq<u8>) -> bool {
    exists|k: int| 0 <= k < method_tokens().len() && #[trigger] is_prefix(method_tokens()[k], s)
}

impl HttpMethod {
    /// The method tokens as raw bytes, in their fixed order.
    pub fn method_bytes() -> (r: Vec<Vec<u8>>)
        ensures
            r.deep_view() =~~= method_tokens(),
    {
        let mut r: Vec<Vec<u8>> = Vec::new();
        r.push(vec![71u8, 69, 84]);
        r.push(vec![80u8, 79, 83, 84]);
        r.push(vec![80u8, 85, 84]);
        r.push(vec![72u8, 69, 65, 68]);
        r.push(vec![67u8, 79, 78, 78, 69, 67, 84]);
        r.push(vec![84u8, 82, 65, 67, 69]);
        r.push(vec![80u8, 65, 84, 67, 72]);
        r.push(vec![79u8, 80, 84, 73, 79, 78, 83]);
        r.push(vec![68u8, 69, 76, 69, 84, 69]);
        proof {
            assert(r.deep_view() =~~= method_tokens());
        }
        r
    }

    /// Whether `s` begins with one of the known method tokens.
    pub fn starts_with_known_method(s: &[u8]) -> (r: bool)
        ensures
            r <==> starts_with_method(s@),
    {
        let toks = HttpMethod::method_bytes();
        let mut k: usize = 0;
        while k < toks.len()
            invariant
                toks.deep_view() =~~= method_tokens(),
                k <= toks@.len(),
                forall|j: int| 0 <= j < k ==> !is_prefix(method_tokens()[j], s@),
            decreases toks@.len() - k,
        {
            proof {
                assert(toks.deep_view()[k as int] == toks@[k as int]@);
            }
            if starts_with(s, toks[k].as_slice()) {
                return true;
            }
            k = k + 1;
        }
        false
    }
}

/// The four-byte blank-line marker separating head from body.
pub open spec fn gap_marker() -> Seq<u8> {
    seq![13u8, 10, 13, 10]
}

/// The mathematical model of a framed HTTP message.
pub ghost struct HttpDataModel {
    pub header: HeaderModel,
    pub body: Seq<u8>,
}

/// The views of a sequence of framed messages.
pub open spec fn data_views(s: Seq<HttpData>) -> Seq<HttpDataModel> {
    s.map_values(|d: HttpData| d@)
}

/// The parse of a whole message from raw bytes: everything before the
/// first blank-line marker is the head, everything after it the body; a
/// buffer without the marker is not a message.
pub open spec fn parse_http_data(raw: Seq<u8>, direction: StreamDirection) -> Option<
    HttpDataModel,
> {
    let p = first_occ(raw, gap_marker());
    if p < 0 {
        None
    } else {
        let head = raw.take(p);
        let body = raw.skip(p + 4);
        let hm = match direction {
            StreamDirection::ClientToServer => parse_client_head(head),
            StreamDirection::ServerToClient => parse_server_head(head),
        };
        match hm {
            Some(h) => Some(HttpDataModel { header: h, body }),
            None => None,
        }
    }
}

/// The message a buffer that frames no message is rejected with: either
/// the boundary is missing, or the head parser's own report is passed on
/// unchanged.
pub open spec fn frame_err_msg(raw: Seq<u8>, direction: StreamDirection) -> Seq<char> {
    let p = first_occ(raw, gap_marker());
    if p < 0 {
        "missing head/body boundary"@
    } else {
        match direction {
            StreamDirection::ClientToServer => crate::header::client_head_err_msg(raw.take(p)),
            StreamDirection::ServerToClient => crate::header::server_head_err_msg(raw.take(p)),
        }
    }
}

/// A buffer in which the blank-line marker occurs nowhere is never a
/// message, whichever direction it is read for.
pub proof fn lemma_missing_boundary_rejected(raw: Seq<u8>, direction: StreamDirection)
    requires
        forall|i: int| !crate::bytes::occurs_at(raw, gap_marker(), i),
    ensures
        parse_http_data(raw, direction) is None,
{
    crate::bytes::lemma_first_occ(raw, gap_marker());
    if first_occ(raw, gap_marker()) >= 0 {
        assert(crate::bytes::occurs_at(raw, gap_marker(), first_occ(raw, gap_marker())));
    }
}

/// A framed HTTP message: a structured header and an opaque body.
pub struct HttpData {
    header: HttpHeader,
    body: HttpBody,
}

impl View for HttpData {
    type V = HttpDataModel;

    closed spec fn view(&self) -> HttpDataModel {
        HttpDataModel { header: self.header@, body: self.body@ }
    }
}

impl HttpData {
    /// Frames one message out of a raw buffer: the head before the first
    /// blank-line marker is parsed for the given direction, the rest is
    /// the body. A buffer without the marker is rejected.
    pub fn from_bytes(bs: Vec<u8>, direction: StreamDirection) -> (r: ProxyResult<HttpData>)
        ensures
            match r {
                Ok(d) => parse_http_data(bs@, direction) == Some(d@),
                Err(e) => parse_http_data(bs@, direction) is None && e@ == frame_err_msg(
                    bs@,
                    direction,
                ),
            },
    {
        let gap: Vec<u8> = vec![13u8, 10, 13, 10];
        proof {
            assert(gap@ =~= gap_marker());
        }
        match crate::bytes::find_sub(bs.as_slice(), gap.as_slice()) {
            None => Err(ProxyError::from_msg("missing head/body boundary")),
            Some(p) => {
                let n: usize = bs.len();
                proof {
                    crate::bytes::lemma_first_occ(bs@, gap_marker());
                    assert(p + 4 <= n);
                }
                let head = vstd::slice::slice_to_vec(
                    vstd::slice::slice_subrange(bs.as_slice(), 0, p),
                );
                let body_bytes = vstd::slice::slice_to_vec(
                    vstd::slice::slice_subrange(bs.as_slice(), p + 4, n),
                );
                proof {
                    assert(head@ =~= bs@.take(p as int));
                    assert(body_bytes@ =~= bs@.skip(p + 4));
                }
                let header = match direction {
                    StreamDirection::ClientToServer => HttpHeader::from_client(head),
                    StreamDirection::ServerToClient => HttpHeader::from_server(head),
                };
                match header {
                    Ok(h) => Ok(HttpData { header: h, body: HttpBody::from_bytes(body_bytes) }),
                    Err(e) => Err(e),
                }
            },
        }
    }

    /// The structured header of this message.
    pub fn header(&self) -> (r: &HttpHeader)
        ensures
            r@ == self@.header,
    {
        &self.header
    }

    /// The opaque body of this message.
    pub fn body(&self) -> (r: &HttpBody)
        ensures
            r@ == self@.body,
    {
        &self.body
    }
}

/// An opaque message body: the raw bytes after the head/body boundary,
/// stored without further parsing.
pub struct HttpBody {
    data: Vec<u8>,
}

impl HttpBody {
    /// Wraps raw body bytes.
    pub fn from_bytes(bs: Vec<u8>) -> (r: HttpBody)
        ensures
            r@ == bs@,
    {
        HttpBody { data: bs }
    }

    /// The raw body bytes.
    pub fn bytes(&self) -> (r: &Vec<u8>)
        ensures
            r@ == self@,
    {
        &self.data
    }
}

impl View for HttpBody {
    type V = Seq<u8>;

    closed spec fn view(&self) -> Seq<u8> {
        self.data@
    }
}

} // verus!
