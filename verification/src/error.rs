//! The single error kind of the library: a human-readable message.

use vstd::prelude::*;

verus! {

/// Any failure (parse error, handshake error, I/O error at the edges) is
/// reported as one kind carrying only a descriptive message.
#[derive(Debug)]
pub struct ProxyError {
    msg: String,
}

pub type ProxyResult<T> = Result<T, ProxyError>;

impl ProxyError {
    /// Wraps a message.
    pub fn new(msg: String) -> (r: ProxyError)
        ensures
            r@ == msg@,
    {
        ProxyError { msg }
    }

    /// Wraps a literal message.
    pub fn from_msg(m: &str) -> (r: ProxyError)
        ensures
            r@ == m@,
    {
        ProxyError { msg: m.to_owned() }
    }

    /// The message carried by this error.
    pub fn to_string(&self) -> (r: String)
        ensures
            r@ == self@,
    {
        self.msg.clone()
    }
}

impl View for ProxyError {
    type V = Seq<char>;

    closed spec fn view(&self) -> Seq<char> {
        self.msg@
    }
}

} // verus!
