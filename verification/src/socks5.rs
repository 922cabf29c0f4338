//! The SOCKS5 handshake: the greeting reply, the request parser for the
//! two supported address types, and the fixed reply frames.
//!
//! Only "no authentication" is negotiated. A request carries its
//! address-type tag at byte offset 3: `0x01` is IPv4 (four address bytes
//! and a big-endian port), `0x03` a length-prefixed domain name followed
//! by a big-endian port; any other tag is unsupported. Reply frames
//! always carry the fixed dummy address `127.0.0.1:80`.

use vstd::prelude::*;
use crate::error::{ProxyError, ProxyResult};

verus! {

/// A big-endian 16-bit value.
pub open spec fn be16(hi: u8, lo: u8) -> int {
    hi * 256 + lo
}

/// A big-endian 32-bit value.
pub open spec fn be32(b0: u8, b1: u8, b2: u8, b3: u8) -> int {
    ((b0 * 256 + b1) * 256 + b2) * 256 + b3
}

/// The mathematical model of a parsed SOCKS5 target.
pub ghost enum Socks5TargetModel {
    Ipv4 { host: int, port: int },
    Domain { name: Seq<u8>, port: int },
}

/// The target a SOCKS5 request buffer denotes, by its address-type tag;
/// `None` for an unsupported tag, and for a domain name that does not
/// decode as UTF-8, since it could not be resolved as a hostname.
pub open spec fn parse_socks5_request_spec(buf: Seq<u8>) -> Option<Socks5TargetModel> {
    if buf[3] == 1 {
        Some(
            Socks5TargetModel::Ipv4 {
                host: be32(buf[4], buf[5], buf[6], buf[7]),
                port: be16(buf[8], buf[9]),
            },
        )
    } else if buf[3] == 3 {
        let dlen = buf[4] as int;
        if !vstd::utf8::valid_utf8(buf.subrange(5, 5 + dlen)) {
            None
        } else {
            Some(
                Socks5TargetModel::Domain {
                    name: buf.subrange(5, 5 + dlen),
                    port: be16(buf[5 + dlen], buf[6 + dlen]),
                },
            )
        }
    } else {
        None
    }
}

/// A parsed SOCKS5 target: a raw IPv4 address with port, or a domain
/// name, read as raw bytes, with port.
#[derive(Debug, PartialEq, Eq)]
pub enum Socks5Target {
    Ipv4 { host: u32, port: u16 },
    Domain { name: Vec<u8>, port: u16 },
}

impl View for Socks5Target {
    type V = Socks5TargetModel;

    open spec fn view(&self) -> Socks5TargetModel {
        match self {
            Socks5Target::Ipv4 { host, port } => Socks5TargetModel::Ipv4 {
                host: *host as int,
                port: *port as int,
            },
            Socks5Target::Domain { name, port } => Socks5TargetModel::Domain {
                name: name@,
                port: *port as int,
            },
        }
    }
}

/// Parses a SOCKS5 request out of the (zero-padded) read buffer. The
/// buffer must be large enough for the longest encodable request, as the
/// handler's fixed read buffer is; short reads leave the padding zeroed.
pub fn parse_socks5_request(buf: &[u8]) -> (r: ProxyResult<Socks5Target>)
    requires
        buf@.len() >= 262,
    ensures
        match r {
            Ok(t) => parse_socks5_request_spec(buf@) == Some(t@),
            Err(_) => parse_socks5_request_spec(buf@) is None,
        },
{
    if buf[3] == 1 {
        let host: u32 = (buf[4] as u32) * 16777216 + (buf[5] as u32) * 65536 + (buf[6] as u32)
            * 256 + (buf[7] as u32);
        let port: u16 = (buf[8] as u16) * 256 + (buf[9] as u16);
        Ok(Socks5Target::Ipv4 { host, port })
    } else if buf[3] == 3 {
        let dlen: usize = buf[4] as usize;
        let name = vstd::slice::slice_to_vec(vstd::slice::slice_subrange(buf, 5, 5 + dlen));
        if !crate::bytes::is_valid_utf8(name.as_slice()) {
            return Err(ProxyError::from_msg("domain name is not valid UTF-8"));
        }
        let port: u16 = (buf[5 + dlen] as u16) * 256 + (buf[6 + dlen] as u16);
        Ok(Socks5Target::Domain { name, port })
    } else {
        Err(ProxyError::from_msg("unsupported SOCKS5 address type"))
    }
}

/// The greeting reply: protocol version 5, no authentication required.
pub fn socks5_greeting_reply() -> (r: Vec<u8>)
    ensures
        r@ == seq![5u8, 0u8],
{
    let v: Vec<u8> = vec![5u8, 0];
    proof {
        assert(v@ =~= seq![5u8, 0u8]);
    }
    v
}

/// The fixed reply frame for a reply code: version 5, the code, then
/// address type 1 with the dummy address `127.0.0.1:80`.
pub open spec fn socks5_reply_frame(code: u8) -> Seq<u8> {
    seq![5u8, code, 0u8, 1u8, 127u8, 0u8, 0u8, 1u8, 0u8, 80u8]
}

/// Builds the fixed reply frame for a reply code: 0 reports success, 5 a
/// refused connection, 8 an unsupported address type.
pub fn socks5_reply(code: u8) -> (r: Vec<u8>)
    ensures
        r@ == socks5_reply_frame(code),
{
    let v: Vec<u8> = vec![5u8, code, 0, 1, 127, 0, 0, 1, 0, 80];
    proof {
        assert(v@ =~= socks5_reply_frame(code));
    }
    v
}

} // verus!
