//! The connection handler's parsing steps: extracting the CONNECT tunnel
//! target, delimiting the plain-proxy authority, and the per-read step of
//! the relay that decides whether a capture chunk is emitted.

use vstd::prelude::*;
use crate::bytes::{find_sub, first_occ, lemma_first_occ};
use crate::capture::{ProxyData, StreamDirection};
use crate::error::{ProxyError, ProxyResult};
use crate::http::{int_token_value, lemma_dec_val_nonneg, digits_value, dec_val, all_digits,
    is_ascii_digit};

verus! {

/// The literal `CONNECT ` that opens a tunnel request line.
pub open spec fn connect_prefix() -> Seq<u8> {
    seq![67u8, 79, 78, 78, 69, 67, 84, 32]
}

/// The literal `http://` of a plain proxied request target.
pub open spec fn http_scheme() -> Seq<u8> {
    seq![104u8, 116, 116, 112, 58, 47, 47]
}

/// The word `CONNECT` that a tunnel request opens with.
pub open spec fn connect_word() -> Seq<u8> {
    seq![67u8, 79, 78, 78, 69, 67, 84]
}

/// Whether an initial chunk announces a CONNECT tunnel: it opens with
/// the literal `CONNECT`.
pub fn is_connect_request(s: &[u8]) -> (r: bool)
    ensures
        r <==> crate::bytes::is_prefix(connect_word(), s@),
{
    let pat: Vec<u8> = vec![67u8, 79, 78, 78, 69, 67, 84];
    proof {
        assert(pat@ =~= connect_word());
    }
    crate::bytes::starts_with(s, pat.as_slice())
}

/// The tunnel target of a CONNECT request: the chunk must decode as
/// UTF-8, and the target is the text between the first `CONNECT ` and
/// the next space; absent when either delimiter is.
pub open spec fn connect_target_spec(s: Seq<u8>) -> Option<Seq<u8>> {
    let i = first_occ(s, connect_prefix());
    if !vstd::utf8::valid_utf8(s) || i < 0 {
        None
    } else {
        let rest = s.skip(i + 8);
        let j = first_occ(rest, seq![32u8]);
        if j < 0 {
            None
        } else {
            Some(rest.take(j))
        }
    }
}

/// Extracts the `host:port` target token of a CONNECT request line.
pub fn connect_target(s: &[u8]) -> (r: ProxyResult<Vec<u8>>)
    ensures
        match r {
            Ok(t) => connect_target_spec(s@) == Some(t@),
            Err(_) => connect_target_spec(s@) is None,
        },
{
    if !crate::bytes::is_valid_utf8(s) {
        return Err(ProxyError::from_msg("request is not valid UTF-8"));
    }
    let pat: Vec<u8> = vec![67u8, 79, 78, 78, 69, 67, 84, 32];
    proof {
        assert(pat@ =~= connect_prefix());
    }
    let i = match find_sub(s, pat.as_slice()) {
        Some(i) => i,
        None => {
            return Err(ProxyError::from_msg("no tunnel target in request"));
        },
    };
    proof {
        lemma_first_occ(s@, connect_prefix());
    }
    let n: usize = s.len();
    let rest = vstd::slice::slice_subrange(s, i + 8, n);
    proof {
        assert(rest@ =~= s@.skip(i + 8));
    }
    let sp: Vec<u8> = vec![32u8];
    proof {
        assert(sp@ =~= seq![32u8]);
    }
    match find_sub(rest, sp.as_slice()) {
        Some(j) => {
            proof {
                lemma_first_occ(rest@, seq![32u8]);
            }
            let t = vstd::slice::slice_to_vec(vstd::slice::slice_subrange(rest, 0, j));
            proof {
                assert(t@ =~= s@.skip(i + 8).take(j as int));
            }
            Ok(t)
        },
        None => Err(ProxyError::from_msg("no tunnel target in request")),
    }
}

/// The host part of a `host:port` token: everything before the first
/// colon, or the whole token without one.
pub open spec fn host_of(addr: Seq<u8>) -> Seq<u8> {
    let i = first_occ(addr, seq![58u8]);
    if i < 0 {
        addr
    } else {
        addr.take(i)
    }
}

/// Strips the port from a `host:port` token, for use as the TLS server
/// name.
pub fn host_part(addr: &[u8]) -> (r: Vec<u8>)
    ensures
        r@ == host_of(addr@),
{
    let colon: Vec<u8> = vec![58u8];
    proof {
        assert(colon@ =~= seq![58u8]);
    }
    match find_sub(addr, colon.as_slice()) {
        Some(i) => {
            proof {
                lemma_first_occ(addr@, seq![58u8]);
            }
            let t = vstd::slice::slice_to_vec(vstd::slice::slice_subrange(addr, 0, i));
            proof {
                assert(t@ =~= addr@.take(i as int));
            }
            t
        },
        None => vstd::slice::slice_to_vec(addr),
    }
}

/// Index of the last occurrence of the byte `b` in `s`, or -1.
pub open spec fn last_occ_byte(s: Seq<u8>, b: u8) -> int
    decreases s.len(),
{
    if s.len() == 0 {
        -1
    } else if s.last() == b {
        s.len() - 1
    } else {
        last_occ_byte(s.drop_last(), b)
    }
}

/// The value of a port token as the standard library's unsigned parser
/// reads it: an optional plus sign, digits only, at most 65535.
pub open spec fn u16_token_value(s: Seq<u8>) -> Option<int> {
    if s.len() > 0 && s[0] == 45 {
        None
    } else {
        match int_token_value(s) {
            Some(v) => if v <= 65535 {
                Some(v)
            } else {
                None
            },
            None => None,
        }
    }
}

/// Parses a port token: an optional plus sign and digits, at most 65535.
pub fn parse_u16_token(s: &[u8]) -> (r: Option<u16>)
    ensures
        match r {
            Some(p) => u16_token_value(s@) == Some(p as int),
            None => u16_token_value(s@) is None,
        },
{
    let n: usize = s.len();
    if n == 0 {
        return None;
    }
    if s[0] == 45 {
        return None;
    }
    let start: usize = if s[0] == 43 {
        1
    } else {
        0
    };
    let ghost ds: Seq<u8> = s@.skip(start as int);
    let mut acc: u32 = 0;
    let mut i: usize = start;
    while i < n
        invariant
            n == s@.len(),
            n >= 1,
            start <= 1,
            (start == 1) <==> (s@[0] == 43),
            s@[0] != 45,
            start <= i <= n,
            ds == s@.skip(start as int),
            all_digits(s@.subrange(start as int, i as int)),
            ({
                let pv = dec_val(s@.subrange(start as int, i as int));
                &&& (pv < 100000 ==> acc == pv)
                &&& (pv >= 100000 ==> acc >= 100000)
                &&& acc <= 1000009
            }),
        decreases n - i,
    {
        let b = s[i];
        if b < 48 || b > 57 {
            proof {
                assert(ds[i - start] == s@[i as int]);
                assert(!all_digits(ds));
                assert(digits_value(ds) is None);
                if start == 0 {
                    assert(ds =~= s@);
                }
                assert(int_token_value(s@) is None);
            }
            return None;
        }
        proof {
            let pfx = s@.subrange(start as int, i as int);
            let pfx2 = s@.subrange(start as int, i + 1 as int);
            assert(pfx2.drop_last() =~= pfx);
            assert(pfx2.last() == s@[i as int]);
            lemma_dec_val_nonneg(pfx);
        }
        // saturate far above every accepted value, so the range test
        // below still decides exactly
        if acc < 100000 {
            acc = acc * 10 + ((b - 48) as u32);
        }
        i = i + 1;
    }
    if start == n {
        // a bare sign with no digits does not denote an integer
        return None;
    }
    proof {
        assert(s@.subrange(start as int, n as int) =~= ds);
        if start == 0 {
            assert(ds =~= s@);
        }
    }
    if acc <= 65535 {
        Some(acc as u16)
    } else {
        None
    }
}

/// The authority's port: the token after the last colon, read as a port
/// number, or 80 when there is no colon.
pub open spec fn authority_port(addr: Seq<u8>) -> Option<int> {
    let c = last_occ_byte(addr, 58);
    if c < 0 {
        Some(80)
    } else {
        u16_token_value(addr.skip(c + 1))
    }
}

/// The bounds of the scheme-and-authority prefix of a plain proxied
/// request: where `http://` begins and where the first `/` after the
/// authority stands. The scheme must lie inside the chunk's filled bytes.
pub open spec fn plain_target_bounds(s: Seq<u8>, len: int) -> Option<(int, int)> {
    let sp = first_occ(s, http_scheme());
    if sp < 0 || sp + 7 > len {
        None
    } else {
        let j = first_occ(s.subrange(sp + 7, len), seq![47u8]);
        if j < 0 {
            None
        } else {
            Some((sp, sp + 7 + j))
        }
    }
}

/// The parse of a plain proxied request's target: the authority between
/// `http://` and the next `/` must decode as UTF-8, and is split into
/// host and port.
pub open spec fn plain_target_spec(s: Seq<u8>, len: int) -> Option<(Seq<u8>, int, int, int)> {
    match plain_target_bounds(s, len) {
        None => None,
        Some((sp, end)) => {
            let auth = s.subrange(sp + 7, end);
            if !vstd::utf8::valid_utf8(auth) {
                None
            } else {
                match authority_port(auth) {
                    None => None,
                    Some(p) => Some((host_of(auth), p, sp, end)),
                }
            }
        },
    }
}

/// The target of a plain proxied request: host, port, and the bounds of
/// the scheme-and-authority prefix that is stripped before forwarding.
pub struct PlainTarget {
    pub host: Vec<u8>,
    pub port: u16,
    pub scheme_start: usize,
    pub path_start: usize,
}

/// Delimits the target authority of a plain proxied request: the text
/// between `http://` and the next `/`, split into host and optional port
/// (default 80). The request is forwarded with everything from
/// `scheme_start` up to `path_start` stripped.
pub fn plain_proxy_target(s: &[u8], len: usize) -> (r: ProxyResult<PlainTarget>)
    requires
        len <= s@.len(),
    ensures
        match r {
            Ok(t) => plain_target_spec(s@, len as int) == Some(
                (t.host@, t.port as int, t.scheme_start as int, t.path_start as int),
            ),
            Err(_) => plain_target_spec(s@, len as int) is None,
        },
{
    let pat: Vec<u8> = vec![104u8, 116, 116, 112, 58, 47, 47];
    proof {
        assert(pat@ =~= http_scheme());
    }
    let sp = match find_sub(s, pat.as_slice()) {
        Some(i) => i,
        None => {
            return Err(ProxyError::from_msg("no proxied address in request"));
        },
    };
    let n: usize = s.len();
    proof {
        lemma_first_occ(s@, http_scheme());
        assert(sp + 7 <= n);
    }
    if sp + 7 > len {
        return Err(ProxyError::from_msg("no proxied address in request"));
    }
    let tail = vstd::slice::slice_subrange(s, sp + 7, len);
    let slash: Vec<u8> = vec![47u8];
    proof {
        assert(slash@ =~= seq![47u8]);
        assert(tail@ == s@.subrange(sp + 7, len as int));
    }
    let j = match find_sub(tail, slash.as_slice()) {
        Some(j) => j,
        None => {
            return Err(ProxyError::from_msg("no proxied address in request"));
        },
    };
    proof {
        lemma_first_occ(tail@, seq![47u8]);
    }
    let auth = vstd::slice::slice_subrange(tail, 0, j);
    proof {
        assert(auth@ =~= s@.subrange(sp + 7, sp + 7 + j));
    }
    if !crate::bytes::is_valid_utf8(auth) {
        return Err(ProxyError::from_msg("proxied address is not valid UTF-8"));
    }
    let port = match authority_port_exec(auth) {
        Some(p) => p,
        None => {
            return Err(ProxyError::from_msg("bad proxied port"));
        },
    };
    let host = host_part(auth);
    Ok(PlainTarget { host, port, scheme_start: sp, path_start: sp + 7 + j })
}

/// Reads the port of an authority token: the digits after the last
/// colon, or 80 without one.
fn authority_port_exec(auth: &[u8]) -> (r: Option<u16>)
    ensures
        match r {
            Some(p) => authority_port(auth@) == Some(p as int),
            None => authority_port(auth@) is None,
        },
{
    let n: usize = auth.len();
    let mut c: usize = n;
    proof {
        assert(auth@.take(n as int) =~= auth@);
    }
    while c > 0
        invariant
            c <= n,
            n == auth@.len(),
            last_occ_byte(auth@, 58) == last_occ_byte(auth@.take(c as int), 58),
        decreases c,
    {
        c = c - 1;
        proof {
            assert(auth@.take(c + 1).last() == auth@[c as int]);
            assert(auth@.take(c + 1).drop_last() =~= auth@.take(c as int));
        }
        if auth[c] == 58 {
            let seg = vstd::slice::slice_subrange(auth, c + 1, n);
            proof {
                assert(seg@ =~= auth@.skip(c + 1));
            }
            return parse_u16_token(seg);
        }
    }
    proof {
        assert(auth@.take(0) =~= Seq::<u8>::empty());
    }
    Some(80)
}

/// One step of a relay copy loop, after the bytes were read and written
/// through: a zero-length read closes the loop and emits nothing, any
/// other read emits a chunk carrying exactly the read bytes, the
/// direction and the connection identifier.
pub fn relay_step(buffer: &Vec<u8>, len: usize, direction: StreamDirection, id: &str) -> (r:
    Option<ProxyData>)
    requires
        len <= buffer@.len(),
    ensures
        len == 0 ==> r is None,
        len > 0 ==> (match r {
            Some(pd) => {
                &&& pd@.direction == direction
                &&& pd@.buffer == buffer@
                &&& pd@.len == len as int
                &&& pd@.stream_id == id@
            },
            None => false,
        }),
{
    if len == 0 {
        None
    } else {
        let copy = vstd::slice::slice_to_vec(buffer.as_slice());
        Some(ProxyData::new(direction, copy, len, id.to_owned()))
    }
}

} // verus!
