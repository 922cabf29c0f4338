//! The HTTP head codec: parses the raw head bytes of a request or response
//! into a structured header, against a mathematical model of the parse.
//!
//! A head is normalized (`\r\n` to `\n`) and split into lines. The first
//! line is read as `method uri version` for a client head and as
//! `version status` for a server head; every later line is a field, split
//! at the first `": "`, any further separator sequence belonging to the
//! value. Later fields of the same name override earlier ones.

use vstd::prelude::*;
use crate::bytes::first_occ;
use crate::error::{ProxyError, ProxyResult};
use crate::http::{HttpStatus, HttpVersion, int_token_value, status_err_msg, status_of_code,
    version_of_token};

verus! {

/// The field separator `": "` as bytes.
pub open spec fn field_sep() -> Seq<u8> {
    seq![58u8, 32]
}

/// Normalization of a head: every `\r\n` becomes `\n`, scanning left to
/// right.
pub open spec fn normalize_crlf(s: Seq<u8>) -> Seq<u8>
    decreases s.len(),
{
    if s.len() == 0 {
        Seq::empty()
    } else if s.len() >= 2 && s[0] == 13 && s[1] == 10 {
        seq![10u8] + normalize_crlf(s.skip(2))
    } else {
        seq![s[0]] + normalize_crlf(s.skip(1))
    }
}

/// Splitting at a separator byte, with the segment gathered so far in
/// `cur`: every occurrence of `b` ends a segment, and the final segment is
/// kept even when empty.
pub open spec fn split_from(s: Seq<u8>, b: u8, cur: Seq<u8>) -> Seq<Seq<u8>>
    decreases s.len(),
{
    if s.len() == 0 {
        seq![cur]
    } else if s[0] == b {
        seq![cur] + split_from(s.skip(1), b, Seq::empty())
    } else {
        split_from(s.skip(1), b, cur.push(s[0]))
    }
}

/// The segments of `s` between occurrences of the separator byte `b`.
pub open spec fn split_byte(s: Seq<u8>, b: u8) -> Seq<Seq<u8>> {
    split_from(s, b, Seq::empty())
}

/// The first line of a normalized head, a trailing carriage return
/// stripped, as the standard library's line iterator reads it.
pub open spec fn first_line(norm: Seq<u8>) -> Seq<u8> {
    let l = split_byte(norm, 10)[0];
    if l.len() > 0 && l[l.len() - 1] == 13 {
        l.take(l.len() - 1)
    } else {
        l
    }
}

/// The name/value pair of one field line: the name is everything before
/// the first `": "`, the value everything after it; a line without the
/// separator is a name with an empty value.
pub open spec fn field_pair(line: Seq<u8>) -> (Seq<u8>, Seq<u8>) {
    let i = first_occ(line, field_sep());
    if i < 0 {
        (line, Seq::empty())
    } else {
        (line.take(i), line.skip(i + 2))
    }
}

/// The field mapping of the given field lines, in order: a later line
/// with the same name overrides an earlier one.
pub open spec fn fields_of_lines(lines: Seq<Seq<u8>>) -> Map<Seq<u8>, Seq<u8>>
    decreases lines.len(),
{
    if lines.len() == 0 {
        Map::empty()
    } else {
        fields_of_lines(lines.drop_last()).insert(
            field_pair(lines.last()).0,
            field_pair(lines.last()).1,
        )
    }
}

/// The mathematical model of a parsed header.
pub ghost struct HeaderModel {
    pub method: Seq<u8>,
    pub uri: Seq<u8>,
    pub version: HttpVersion,
    pub status: HttpStatus,
    pub fields: Map<Seq<u8>, Seq<u8>>,
}

/// The parse of a client-side head: the bytes must decode as UTF-8, and
/// the first line must carry at least three space-separated tokens, read
/// as method, URI and version; the version token must be one of the
/// closed set. The method and URI are stored verbatim. The status takes
/// its default.
pub open spec fn parse_client_head(raw: Seq<u8>) -> Option<HeaderModel> {
    let norm = normalize_crlf(raw);
    if !vstd::utf8::valid_utf8(raw) || norm.len() == 0 {
        None
    } else {
        let lines = split_byte(norm, 10);
        let toks = split_byte(first_line(norm), 32);
        if toks.len() < 3 {
            None
        } else {
            match version_of_token(toks[2]) {
                Some(v) => Some(
                    HeaderModel {
                        method: toks[0],
                        uri: toks[1],
                        version: v,
                        status: HttpStatus::OK,
                        fields: fields_of_lines(lines.skip(1)),
                    },
                ),
                None => None,
            }
        }
    }
}

/// The parse of a server-side head: the bytes must decode as UTF-8, and
/// the first line must open with a version token of the closed set
/// followed by a status-code token denoting one of the known codes.
/// Method and URI take their defaults.
pub open spec fn parse_server_head(raw: Seq<u8>) -> Option<HeaderModel> {
    let norm = normalize_crlf(raw);
    if !vstd::utf8::valid_utf8(raw) || norm.len() == 0 {
        None
    } else {
        let lines = split_byte(norm, 10);
        let toks = split_byte(first_line(norm), 32);
        match version_of_token(toks[0]) {
            Some(v) => {
                if toks.len() < 2 {
                    None
                } else {
                    let status = status_of_code(int_token_value(toks[1]));
                    match status {
                        Some(c) => Some(
                            HeaderModel {
                                method: Seq::empty(),
                                uri: Seq::empty(),
                                version: v,
                                status: c,
                                fields: fields_of_lines(lines.skip(1)),
                            },
                        ),
                        None => None,
                    }
                }
            },
            None => None,
        }
    }
}

/// The message a rejected client-side head is reported with, following
/// the order in which the parse gives up.
pub open spec fn client_head_err_msg(raw: Seq<u8>) -> Seq<char> {
    let norm = normalize_crlf(raw);
    if !vstd::utf8::valid_utf8(raw) {
        "head is not valid UTF-8"@
    } else if norm.len() == 0 {
        "empty head"@
    } else if split_byte(first_line(norm), 32).len() < 3 {
        "missing request line token"@
    } else {
        "unknown HTTP version token"@
    }
}

/// The message a rejected server-side head is reported with, following
/// the order in which the parse gives up.
pub open spec fn server_head_err_msg(raw: Seq<u8>) -> Seq<char> {
    let norm = normalize_crlf(raw);
    let toks = split_byte(first_line(norm), 32);
    if !vstd::utf8::valid_utf8(raw) {
        "head is not valid UTF-8"@
    } else if norm.len() == 0 {
        "empty head"@
    } else if version_of_token(toks[0]) is None {
        "unknown HTTP version token"@
    } else if toks.len() < 2 {
        "missing status code token"@
    } else {
        status_err_msg(toks[1])
    }
}

/// The views of a header's stored field entries.
pub open spec fn entry_views(es: Seq<(Vec<u8>, Vec<u8>)>) -> Seq<(Seq<u8>, Seq<u8>)> {
    es.map_values(|e: (Vec<u8>, Vec<u8>)| (e.0@, e.1@))
}

/// The mapping an entry list denotes: each entry inserted in order, so a
/// later entry overrides an earlier one of the same name.
pub open spec fn pairs_to_map(ps: Seq<(Seq<u8>, Seq<u8>)>) -> Map<Seq<u8>, Seq<u8>>
    decreases ps.len(),
{
    if ps.len() == 0 {
        Map::empty()
    } else {
        pairs_to_map(ps.drop_last()).insert(ps.last().0, ps.last().1)
    }
}

/// The value of the last entry with name `k`, searching right to left.
pub open spec fn assoc_from(ps: Seq<(Seq<u8>, Seq<u8>)>, k: Seq<u8>) -> Option<Seq<u8>>
    decreases ps.len(),
{
    if ps.len() == 0 {
        None
    } else if ps.last().0 == k {
        Some(ps.last().1)
    } else {
        assoc_from(ps.drop_last(), k)
    }
}

/// The mapping an entry list denotes answers a lookup exactly as a
/// right-to-left search of the list does.
pub proof fn lemma_pairs_to_map_assoc(ps: Seq<(Seq<u8>, Seq<u8>)>, k: Seq<u8>)
    ensures
        pairs_to_map(ps).contains_key(k) <==> assoc_from(ps, k) is Some,
        assoc_from(ps, k) matches Some(v) ==> pairs_to_map(ps)[k] == v,
    decreases ps.len(),
{
    if ps.len() == 0 {
    } else if ps.last().0 == k {
    } else {
        lemma_pairs_to_map_assoc(ps.drop_last(), k);
    }
}

/// A structured HTTP header: request line (or status line) tokens and the
/// field entries in the order they were read.
pub struct HttpHeader {
    method: Vec<u8>,
    uri: Vec<u8>,
    version: HttpVersion,
    status: HttpStatus,
    entries: Vec<(Vec<u8>, Vec<u8>)>,
}

impl View for HttpHeader {
    type V = HeaderModel;

    closed spec fn view(&self) -> HeaderModel {
        HeaderModel {
            method: self.method@,
            uri: self.uri@,
            version: self.version,
            status: self.status,
            fields: pairs_to_map(entry_views(self.entries@)),
        }
    }
}

/// Rewrites every `\r\n` of `s` as `\n`.
fn normalize_crlf_exec(s: &[u8]) -> (r: Vec<u8>)
    ensures
        r@ == normalize_crlf(s@),
{
    let n: usize = s.len();
    let mut out: Vec<u8> = Vec::new();
    let mut i: usize = 0;
    proof {
        assert(s@.skip(0) =~= s@);
        assert(out@ + normalize_crlf(s@) =~= normalize_crlf(s@));
    }
    while i < n
        invariant
            n == s@.len(),
            i <= n,
            normalize_crlf(s@) == out@ + normalize_crlf(s@.skip(i as int)),
        decreases n - i,
    {
        let ghost rest = s@.skip(i as int);
        proof {
            assert(rest.len() == n - i);
            assert(rest[0] == s@[i as int]);
            if i + 1 < n {
                assert(rest[1] == s@[i + 1]);
            }
        }
        let ghost out0 = out@;
        if i + 1 < n && s[i] == 13 && s[i + 1] == 10 {
            out.push(10);
            proof {
                assert(rest.skip(2) =~= s@.skip(i + 2));
                assert(normalize_crlf(rest) == seq![10u8] + normalize_crlf(s@.skip(i + 2)));
                assert(out@ + normalize_crlf(s@.skip(i + 2)) =~= out0 + normalize_crlf(rest));
            }
            i = i + 2;
        } else {
            let b = s[i];
            out.push(b);
            proof {
                assert(rest.skip(1) =~= s@.skip(i + 1));
                assert(normalize_crlf(rest) == seq![s@[i as int]] + normalize_crlf(
                    s@.skip(i + 1),
                ));
                assert(out@ + normalize_crlf(s@.skip(i + 1)) =~= out0 + normalize_crlf(rest));
            }
            i = i + 1;
        }
    }
    proof {
        assert(s@.skip(n as int) =~= Seq::<u8>::empty());
        assert(out@ + normalize_crlf(s@.skip(n as int)) =~= out@);
    }
    out
}

/// Splits `s` at every occurrence of the byte `b`.
fn split_byte_exec(s: &[u8], b: u8) -> (r: Vec<Vec<u8>>)
    ensures
        r.deep_view() == split_byte(s@, b),
        r@.len() >= 1,
{
    let n: usize = s.len();
    let mut segs: Vec<Vec<u8>> = Vec::new();
    let mut cur: Vec<u8> = Vec::new();
    let mut i: usize = 0;
    proof {
        assert(s@.skip(0) =~= s@);
        assert(segs.deep_view() + split_from(s@, b, cur@) =~~= split_from(s@, b, cur@));
        assert(cur@ =~= Seq::<u8>::empty());
    }
    while i < n
        invariant
            n == s@.len(),
            i <= n,
            split_byte(s@, b) == segs.deep_view() + split_from(s@.skip(i as int), b, cur@),
        decreases n - i,
    {
        let ghost rest = s@.skip(i as int);
        proof {
            assert(rest.len() == n - i);
            assert(rest[0] == s@[i as int]);
            assert(rest.skip(1) =~= s@.skip(i + 1));
        }
        let ghost segs0 = segs.deep_view();
        let ghost cur0 = cur@;
        if s[i] == b {
            segs.push(cur);
            cur = Vec::new();
            proof {
                assert(split_from(rest, b, cur0) == seq![cur0] + split_from(
                    s@.skip(i + 1),
                    b,
                    Seq::empty(),
                ));
                assert(segs.deep_view() =~~= segs0.push(cur0));
                assert(segs.deep_view() + split_from(s@.skip(i + 1), b, cur@) =~~= segs0
                    + split_from(rest, b, cur0));
            }
        } else {
            let x = s[i];
            cur.push(x);
            proof {
                assert(split_from(rest, b, cur0) == split_from(
                    s@.skip(i + 1),
                    b,
                    cur0.push(s@[i as int]),
                ));
            }
        }
        i = i + 1;
    }
    let ghost segs0 = segs.deep_view();
    let ghost cur0 = cur@;
    segs.push(cur);
    proof {
        assert(s@.skip(n as int) =~= Seq::<u8>::empty());
        assert(split_from(s@.skip(n as int), b, cur0) == seq![cur0]);
        assert(segs.deep_view() =~~= segs0 + seq![cur0]);
    }
    segs
}

/// Reads every line after the first as a field entry, in order.
fn parse_field_entries(lines: &Vec<Vec<u8>>) -> (r: Vec<(Vec<u8>, Vec<u8>)>)
    requires
        lines@.len() >= 1,
    ensures
        pairs_to_map(entry_views(r@)) == fields_of_lines(lines.deep_view().skip(1)),
{
    let sep: Vec<u8> = vec![58u8, 32];  // ": "
    proof {
        assert(sep@ =~= field_sep());
    }
    let mut entries: Vec<(Vec<u8>, Vec<u8>)> = Vec::new();
    let mut i: usize = 1;
    proof {
        assert(entry_views(entries@) =~= Seq::<(Seq<u8>, Seq<u8>)>::empty());
        assert(lines.deep_view().skip(1).take(0) =~~= Seq::<Seq<u8>>::empty());
    }
    while i < lines.len()
        invariant
            sep@ == field_sep(),
            1 <= i <= lines@.len(),
            pairs_to_map(entry_views(entries@)) == fields_of_lines(
                lines.deep_view().skip(1).take(i - 1),
            ),
        decreases lines@.len() - i,
    {
        proof {
            assert(lines.deep_view()[i as int] == lines@[i as int]@);
        }
        let line: &[u8] = lines[i].as_slice();
        let key: Vec<u8>;
        let value: Vec<u8>;
        match crate::bytes::find_sub(line, sep.as_slice()) {
            Some(p) => {
                let llen: usize = line.len();
                proof {
                    crate::bytes::lemma_first_occ(line@, field_sep());
                    assert(p + 2 <= llen);
                }
                key = vstd::slice::slice_to_vec(vstd::slice::slice_subrange(line, 0, p));
                value = vstd::slice::slice_to_vec(vstd::slice::slice_subrange(line, p + 2, llen));
                proof {
                    assert(key@ =~= line@.take(p as int));
                    assert(value@ =~= line@.skip(p + 2));
                }
            },
            None => {
                key = vstd::slice::slice_to_vec(line);
                value = Vec::new();
                proof {
                    assert(value@ =~= Seq::<u8>::empty());
                }
            },
        }
        proof {
            assert((key@, value@) == field_pair(line@));
        }
        let ghost entries0 = entries@;
        entries.push((key, value));
        proof {
            let lv = lines.deep_view().skip(1);
            assert(lv.take(i as int) =~~= lv.take(i - 1).push(lines.deep_view()[i as int]));
            assert(lv.take(i as int).drop_last() =~~= lv.take(i - 1));
            assert(fields_of_lines(lv.take(i as int)) == fields_of_lines(lv.take(i - 1)).insert(
                field_pair(line@).0,
                field_pair(line@).1,
            ));
            assert(entry_views(entries@) =~= entry_views(entries0).push((key@, value@)));
            assert(entry_views(entries@).drop_last() =~= entry_views(entries0));
        }
        i = i + 1;
    }
    proof {
        assert(lines.deep_view().skip(1).take(i - 1) =~~= lines.deep_view().skip(1));
    }
    entries
}

/// The first of the split lines, a trailing carriage return stripped.
fn strip_trailing_cr<'a>(lines: &'a Vec<Vec<u8>>) -> (r: &'a [u8])
    requires
        lines@.len() >= 1,
    ensures
        ({
            let l = lines.deep_view()[0];
            r@ == if l.len() > 0 && l[l.len() - 1] == 13 {
                l.take(l.len() - 1)
            } else {
                l
            }
        }),
{
    proof {
        assert(lines.deep_view()[0] == lines@[0]@);
    }
    let l0: &[u8] = lines[0].as_slice();
    if l0.len() > 0 && l0[l0.len() - 1] == 13 {
        let r = vstd::slice::slice_subrange(l0, 0, l0.len() - 1);
        proof {
            assert(r@ =~= l0@.take(l0@.len() - 1));
        }
        r
    } else {
        l0
    }
}

impl HttpHeader {
    /// An empty header with the default version and status.
    pub fn new() -> (r: HttpHeader)
        ensures
            r@.method == Seq::<u8>::empty(),
            r@.uri == Seq::<u8>::empty(),
            r@.version == HttpVersion::Http10,
            r@.status == HttpStatus::OK,
            r@.fields == Map::<Seq<u8>, Seq<u8>>::empty(),
    {
        HttpHeader {
            method: Vec::new(),
            uri: Vec::new(),
            version: HttpVersion::Http10,
            status: HttpStatus::OK,
            entries: Vec::new(),
        }
    }

    /// Parses a client-side head: request line, then the field lines.
    pub fn from_client(raw: Vec<u8>) -> (r: ProxyResult<HttpHeader>)
        ensures
            match r {
                Ok(h) => parse_client_head(raw@) == Some(h@),
                Err(e) => parse_client_head(raw@) is None && e@ == client_head_err_msg(raw@),
            },
    {
        if !crate::bytes::is_valid_utf8(raw.as_slice()) {
            return Err(ProxyError::from_msg("head is not valid UTF-8"));
        }
        let norm = normalize_crlf_exec(raw.as_slice());
        if norm.len() == 0 {
            return Err(ProxyError::from_msg("empty head"));
        }
        let lines = split_byte_exec(norm.as_slice(), 10);
        let fl = strip_trailing_cr(&lines);
        proof {
            assert(fl@ == first_line(norm@));
        }
        let toks = split_byte_exec(fl, 32);
        if toks.len() < 3 {
            return Err(ProxyError::from_msg("missing request line token"));
        }
        proof {
            assert(toks.deep_view()[0] == toks@[0]@);
            assert(toks.deep_view()[1] == toks@[1]@);
            assert(toks.deep_view()[2] == toks@[2]@);
        }
        let version = match HttpVersion::from_stream_raw(toks[2].as_slice()) {
            Ok(v) => v,
            Err(e) => {
                return Err(e);
            },
        };
        let entries = parse_field_entries(&lines);
        let method = vstd::slice::slice_to_vec(toks[0].as_slice());
        let uri = vstd::slice::slice_to_vec(toks[1].as_slice());
        let h = HttpHeader { method, uri, version, status: HttpStatus::OK, entries };
        Ok(h)
    }

    /// Parses a server-side head: status line, then the field lines.
    pub fn from_server(raw: Vec<u8>) -> (r: ProxyResult<HttpHeader>)
        ensures
            match r {
                Ok(h) => parse_server_head(raw@) == Some(h@),
                Err(e) => parse_server_head(raw@) is None && e@ == server_head_err_msg(raw@),
            },
    {
        if !crate::bytes::is_valid_utf8(raw.as_slice()) {
            return Err(ProxyError::from_msg("head is not valid UTF-8"));
        }
        let norm = normalize_crlf_exec(raw.as_slice());
        if norm.len() == 0 {
            return Err(ProxyError::from_msg("empty head"));
        }
        let lines = split_byte_exec(norm.as_slice(), 10);
        let fl = strip_trailing_cr(&lines);
        proof {
            assert(fl@ == first_line(norm@));
        }
        let toks = split_byte_exec(fl, 32);
        proof {
            assert(toks.deep_view()[0] == toks@[0]@);
        }
        let version = match HttpVersion::from_stream_raw(toks[0].as_slice()) {
            Ok(v) => v,
            Err(e) => {
                return Err(e);
            },
        };
        if toks.len() < 2 {
            return Err(ProxyError::from_msg("missing status code token"));
        }
        proof {
            assert(toks.deep_view()[1] == toks@[1]@);
        }
        let status = match HttpStatus::from_stream_raw(toks[1].as_slice()) {
            Ok(s) => s,
            Err(e) => {
                return Err(e);
            },
        };
        let entries = parse_field_entries(&lines);
        let h = HttpHeader { method: Vec::new(), uri: Vec::new(), version, status, entries };
        proof {
            assert(h@.method =~= Seq::<u8>::empty());
            assert(h@.uri =~= Seq::<u8>::empty());
        }
        Ok(h)
    }

    /// The stored field entries, in the order they were read; the mapping
    /// they denote is the header's field mapping.
    pub fn keys(&self) -> (r: &Vec<(Vec<u8>, Vec<u8>)>)
        ensures
            pairs_to_map(entry_views(r@)) == self@.fields,
    {
        &self.entries
    }

    /// The value of the named field, if the header carries it: the value
    /// of the last entry read under that name.
    pub fn field_value(&self, name: &[u8]) -> (r: Option<&Vec<u8>>)
        ensures
            match r {
                Some(v) => self@.fields.contains_key(name@) && self@.fields[name@] == v@,
                None => !self@.fields.contains_key(name@),
            },
    {
        let ghost evs = entry_views(self.entries@);
        let mut j: usize = self.entries.len();
        proof {
            assert(evs.take(j as int) =~= evs);
        }
        while j > 0
            invariant
                evs == entry_views(self.entries@),
                j <= self.entries@.len(),
                assoc_from(evs, name@) == assoc_from(evs.take(j as int), name@),
            decreases j,
        {
            j = j - 1;
            proof {
                assert(evs[j as int] == (self.entries@[j as int].0@, self.entries@[j as int].1@));
                assert(evs.take(j + 1).drop_last() =~= evs.take(j as int));
                assert(evs.take(j + 1).last() == evs[j as int]);
            }
            if crate::bytes::slice_eq(self.entries[j].0.as_slice(), name) {
                proof {
                    assert(assoc_from(evs.take(j + 1), name@) == Some(evs[j as int].1));
                    lemma_pairs_to_map_assoc(evs, name@);
                }
                return Some(&self.entries[j].1);
            }
            proof {
                assert(assoc_from(evs.take(j + 1), name@) == assoc_from(
                    evs.take(j as int),
                    name@,
                ));
            }
        }
        proof {
            assert(evs.take(0) =~= Seq::<(Seq<u8>, Seq<u8>)>::empty());
            lemma_pairs_to_map_assoc(evs, name@);
        }
        None
    }

    /// The request method, verbatim.
    pub fn method(&self) -> (r: &Vec<u8>)
        ensures
            r@ == self@.method,
    {
        &self.method
    }

    /// The request URI, verbatim.
    pub fn uri(&self) -> (r: &Vec<u8>)
        ensures
            r@ == self@.uri,
    {
        &self.uri
    }

    /// The parsed HTTP version.
    pub fn version(&self) -> (r: HttpVersion)
        ensures
            r == self@.version,
    {
        self.version
    }

    /// The parsed status code.
    pub fn status(&self) -> (r: HttpStatus)
        ensures
            r == self@.status,
    {
        self.status
    }
}

} // verus!
