//! A verified core for a capturing forward proxy: an HTTP head codec and
//! message framer, a traffic aggregator that reassembles framed messages
//! from relayed chunks, the CONNECT / plain-proxy / SOCKS5 request parsers,
//! and the PEM classification step of the TLS termination layer.

pub mod bytes;
pub mod capture;
pub mod error;
pub mod header;
pub mod http;
pub mod proxy;
pub mod socks5;
pub mod tls;
pub mod ui;
