//! The capture data model: the direction tag, the chunk that the relay
//! emits per read, and the per-connection aggregator that reassembles
//! framed HTTP messages from the captured byte stream.

use vstd::prelude::*;
use crate::error::{ProxyError, ProxyResult};
use crate::bytes::is_prefix;
use crate::http::{HttpData, HttpDataModel, HttpMethod, data_views, parse_http_data,
    starts_with_method};

verus! {

/// The direction of a relayed chunk, fixed when the chunk is read.
#[derive(Clone, Copy, PartialEq, Eq, Structural, Debug)]
pub enum StreamDirection {
    ClientToServer,
    ServerToClient,
}

impl StreamDirection {
    /// A readable name for the direction.
    pub fn as_str(&self) -> (r: &'static str)
        ensures
            match self {
                StreamDirection::ClientToServer => r@ == "ClientToServer"@,
                StreamDirection::ServerToClient => r@ == "ServerToClient"@,
            },
    {
        match self {
            StreamDirection::ClientToServer => "ClientToServer",
            StreamDirection::ServerToClient => "ServerToClient",
        }
    }
}

/// The mathematical model of a captured chunk: the connection it belongs
/// to, its direction, the read buffer and how much of it was filled.
pub ghost struct ProxyDataModel {
    pub stream_id: Seq<char>,
    pub direction: StreamDirection,
    pub buffer: Seq<u8>,
    pub len: int,
}

impl ProxyDataModel {
    /// The bytes actually read: the filled prefix of the buffer.
    pub open spec fn payload(self) -> Seq<u8> {
        self.buffer.take(self.len)
    }
}

/// One unit of relayed bytes: produced once per successful read by the
/// relay, consumed exactly once by the traffic aggregator.
pub struct ProxyData {
    stream_id: String,
    direction: StreamDirection,
    buffer: Vec<u8>,
    len: usize,
}

impl View for ProxyData {
    type V = ProxyDataModel;

    closed spec fn view(&self) -> ProxyDataModel {
        ProxyDataModel {
            stream_id: self.stream_id@,
            direction: self.direction,
            buffer: self.buffer@,
            len: self.len as int,
        }
    }
}

impl ProxyData {
    #[verifier::type_invariant]
    spec fn type_inv(self) -> bool {
        self.len <= self.buffer@.len()
    }

    /// Wraps one read: the chunk length never exceeds the buffer.
    pub fn new(direction: StreamDirection, buffer: Vec<u8>, len: usize, id: String) -> (r:
        ProxyData)
        requires
            len <= buffer@.len(),
        ensures
            r@.stream_id == id@,
            r@.direction == direction,
            r@.buffer == buffer@,
            r@.len == len as int,
    {
        ProxyData { direction, buffer, len, stream_id: id }
    }

    /// The direction tag of this chunk.
    pub fn direction(&self) -> (r: &StreamDirection)
        ensures
            *r == self@.direction,
    {
        &self.direction
    }

    /// The whole read buffer, padding included.
    pub fn buffer(&self) -> (r: &Vec<u8>)
        ensures
            r@ == self@.buffer,
    {
        &self.buffer
    }

    /// How many bytes of the buffer were filled by the read.
    pub fn len(&self) -> (r: usize)
        ensures
            r as int == self@.len,
            r as int <= self@.buffer.len(),
    {
        proof {
            use_type_invariant(self);
        }
        self.len
    }

    /// The connection identifier this chunk belongs to.
    pub fn stream_id(&self) -> (r: &str)
        ensures
            r@ == self@.stream_id,
    {
        self.stream_id.as_str()
    }
}

/// The literal prefix `HTTP/1.1` that marks the start of a new response.
pub open spec fn response_marker() -> Seq<u8> {
    seq![72u8, 84, 84, 80, 47, 49, 46, 49]
}

/// The mathematical model of a connection's capture state.
pub ghost struct HttpTcpDataModel {
    pub stream_id: Seq<char>,
    pub req_raw: Seq<u8>,
    pub res_raw: Seq<u8>,
    pub reqs: Seq<HttpDataModel>,
    pub ress: Seq<HttpDataModel>,
}

/// The request-side transition for one chunk: the new state and whether
/// the push succeeds. A payload beginning with a known method token
/// while request bytes are pending marks a new message: the pending
/// bytes are framed and appended, or dropped with a reported failure.
/// The chunk's payload is absorbed in every case, so no pushed byte is
/// lost silently.
pub open spec fn push_req_spec(m: HttpTcpDataModel, buffer: Seq<u8>, len: int) -> (
    HttpTcpDataModel,
    bool,
) {
    let payload = buffer.take(len);
    if !(starts_with_method(payload) && m.req_raw.len() > 0) {
        (
            HttpTcpDataModel {
                stream_id: m.stream_id,
                req_raw: m.req_raw + payload,
                res_raw: m.res_raw,
                reqs: m.reqs,
                ress: m.ress,
            },
            true,
        )
    } else {
        match parse_http_data(m.req_raw, StreamDirection::ClientToServer) {
            Some(d) => (
                HttpTcpDataModel {
                    stream_id: m.stream_id,
                    req_raw: payload,
                    res_raw: m.res_raw,
                    reqs: m.reqs.push(d),
                    ress: m.ress,
                },
                true,
            ),
            None => (
                HttpTcpDataModel {
                    stream_id: m.stream_id,
                    req_raw: payload,
                    res_raw: m.res_raw,
                    reqs: m.reqs,
                    ress: m.ress,
                },
                false,
            ),
        }
    }
}

/// The response-side transition for one chunk, keyed on the literal
/// `HTTP/1.1` payload prefix instead of the method tokens.
pub open spec fn push_res_spec(m: HttpTcpDataModel, buffer: Seq<u8>, len: int) -> (
    HttpTcpDataModel,
    bool,
) {
    let payload = buffer.take(len);
    if !(is_prefix(response_marker(), payload) && m.res_raw.len() > 0) {
        (
            HttpTcpDataModel {
                stream_id: m.stream_id,
                req_raw: m.req_raw,
                res_raw: m.res_raw + payload,
                reqs: m.reqs,
                ress: m.ress,
            },
            true,
        )
    } else {
        match parse_http_data(m.res_raw, StreamDirection::ServerToClient) {
            Some(d) => (
                HttpTcpDataModel {
                    stream_id: m.stream_id,
                    req_raw: m.req_raw,
                    res_raw: payload,
                    reqs: m.reqs,
                    ress: m.ress.push(d),
                },
                true,
            ),
            None => (
                HttpTcpDataModel {
                    stream_id: m.stream_id,
                    req_raw: m.req_raw,
                    res_raw: payload,
                    reqs: m.reqs,
                    ress: m.ress,
                },
                false,
            ),
        }
    }
}

/// Reassembly: a first chunk arriving at an empty request accumulator is
/// only accumulated, whatever it opens with; a second chunk whose
/// payload begins with a known method token then frames the first
/// chunk's bytes into exactly one completed request and leaves its own
/// payload pending.
pub proof fn lemma_reassembly_two_chunks(
    m: HttpTcpDataModel,
    c1: Seq<u8>,
    l1: int,
    c2: Seq<u8>,
    l2: int,
)
    requires
        m.req_raw.len() == 0,
        0 < l1 <= c1.len(),
        0 <= l2 <= c2.len(),
        starts_with_method(c2.take(l2)),
        parse_http_data(c1.take(l1), StreamDirection::ClientToServer) is Some,
    ensures
        ({
            let (m1, ok1) = push_req_spec(m, c1, l1);
            let (m2, ok2) = push_req_spec(m1, c2, l2);
            &&& ok1 && ok2
            &&& m1.reqs == m.reqs
            &&& m1.req_raw == c1.take(l1)
            &&& m2.reqs == m.reqs.push(
                parse_http_data(c1.take(l1), StreamDirection::ClientToServer).unwrap(),
            )
            &&& m2.req_raw == c2.take(l2)
        }),
{
    assert(m.req_raw + c1.take(l1) =~= c1.take(l1));
    assert(c1.take(l1).len() == l1);
}

/// Per-connection capture state: the pending request and response bytes
/// and the completed messages framed so far. The request and the response
/// side are independent accumulators sharing only the identifier.
pub struct HttpTcpData {
    stream_id: String,
    req_raw: Vec<u8>,
    res_raw: Vec<u8>,
    reqs: Vec<HttpData>,
    ress: Vec<HttpData>,
}

impl View for HttpTcpData {
    type V = HttpTcpDataModel;

    closed spec fn view(&self) -> HttpTcpDataModel {
        HttpTcpDataModel {
            stream_id: self.stream_id@,
            req_raw: self.req_raw@,
            res_raw: self.res_raw@,
            reqs: data_views(self.reqs@),
            ress: data_views(self.ress@),
        }
    }
}

impl HttpTcpData {
    /// A fresh, empty capture state.
    pub fn new() -> (r: HttpTcpData)
        ensures
            r@.stream_id == Seq::<char>::empty(),
            r@.req_raw == Seq::<u8>::empty(),
            r@.res_raw == Seq::<u8>::empty(),
            r@.reqs == Seq::<HttpDataModel>::empty(),
            r@.ress == Seq::<HttpDataModel>::empty(),
    {
        let r = HttpTcpData {
            stream_id: String::new(),
            req_raw: Vec::new(),
            res_raw: Vec::new(),
            reqs: Vec::new(),
            ress: Vec::new(),
        };
        proof {
            assert(data_views(r.reqs@) =~= Seq::<HttpDataModel>::empty());
            assert(data_views(r.ress@) =~= Seq::<HttpDataModel>::empty());
        }
        r
    }

    /// Absorbs a client-to-server chunk, as `push_req_spec` states: a
    /// payload opening with a known method token while request bytes are
    /// already pending marks a new message, so the pending bytes are
    /// drained and framed first; the chunk's filled bytes are then
    /// absorbed in every case, and a framing failure is reported.
    fn push_req(&mut self, raw: &Vec<u8>, len: usize) -> (r: ProxyResult<()>)
        requires
            len <= raw@.len(),
        ensures
            ({
                let (m2, ok) = push_req_spec(old(self)@, raw@, len as int);
                &&& final(self)@ == m2
                &&& (r is Ok <==> ok)
            }),
    {
        let filled = vstd::slice::slice_subrange(raw.as_slice(), 0, len);
        if HttpMethod::starts_with_known_method(filled) && self.req_raw.len() != 0 {
            let mut bs: Vec<u8> = Vec::new();
            core::mem::swap(&mut bs, &mut self.req_raw);
            let ghost reqs0 = self.reqs@;
            match HttpData::from_bytes(bs, StreamDirection::ClientToServer) {
                Ok(d) => {
                    self.reqs.push(d);
                    proof {
                        assert(data_views(self.reqs@) =~= data_views(reqs0).push(
                            self.reqs@.last()@,
                        ));
                    }
                },
                Err(e) => {
                    self.req_raw.extend_from_slice(filled);
                    proof {
                        assert(self.req_raw@ =~= raw@.take(len as int));
                    }
                    return Err(e);
                },
            }
        }
        let ghost req0 = self.req_raw@;
        self.req_raw.extend_from_slice(filled);
        proof {
            assert(self.req_raw@ =~= req0 + raw@.take(len as int));
        }
        Ok(())
    }

    /// Absorbs a server-to-client chunk, as `push_res_spec` states: the
    /// literal `HTTP/1.1` payload prefix marks the start of a new
    /// message.
    fn push_res(&mut self, raw: &Vec<u8>, len: usize) -> (r: ProxyResult<()>)
        requires
            len <= raw@.len(),
        ensures
            ({
                let (m2, ok) = push_res_spec(old(self)@, raw@, len as int);
                &&& final(self)@ == m2
                &&& (r is Ok <==> ok)
            }),
    {
        let marker: Vec<u8> = vec![72u8, 84, 84, 80, 47, 49, 46, 49];
        proof {
            assert(marker@ =~= response_marker());
        }
        let filled = vstd::slice::slice_subrange(raw.as_slice(), 0, len);
        if crate::bytes::starts_with(filled, marker.as_slice()) && self.res_raw.len() != 0 {
            let mut bs: Vec<u8> = Vec::new();
            core::mem::swap(&mut bs, &mut self.res_raw);
            let ghost ress0 = self.ress@;
            match HttpData::from_bytes(bs, StreamDirection::ServerToClient) {
                Ok(d) => {
                    self.ress.push(d);
                    proof {
                        assert(data_views(self.ress@) =~= data_views(ress0).push(
                            self.ress@.last()@,
                        ));
                    }
                },
                Err(e) => {
                    self.res_raw.extend_from_slice(filled);
                    proof {
                        assert(self.res_raw@ =~= raw@.take(len as int));
                    }
                    return Err(e);
                },
            }
        }
        let ghost res0 = self.res_raw@;
        self.res_raw.extend_from_slice(filled);
        proof {
            assert(self.res_raw@ =~= res0 + raw@.take(len as int));
        }
        Ok(())
    }

    /// Absorbs one captured chunk into the accumulator of its direction,
    /// as the direction's transition function states; the other
    /// direction's state is untouched.
    pub fn push(&mut self, pd: ProxyData) -> (r: ProxyResult<()>)
        ensures
            ({
                let (m2, ok) = match pd@.direction {
                    StreamDirection::ClientToServer => push_req_spec(
                        old(self)@,
                        pd@.buffer,
                        pd@.len,
                    ),
                    StreamDirection::ServerToClient => push_res_spec(
                        old(self)@,
                        pd@.buffer,
                        pd@.len,
                    ),
                };
                &&& final(self)@ == m2
                &&& (r is Ok <==> ok)
            }),
    {
        proof {
            use_type_invariant(&pd);
        }
        match pd.direction {
            StreamDirection::ClientToServer => self.push_req(&pd.buffer, pd.len),
            StreamDirection::ServerToClient => self.push_res(&pd.buffer, pd.len),
        }
    }

    /// The completed request messages, in the order they were framed.
    pub fn requests(&self) -> (r: &Vec<HttpData>)
        ensures
            data_views(r@) == self@.reqs,
    {
        &self.reqs
    }

    /// The completed response messages, in the order they were framed.
    pub fn responses(&self) -> (r: &Vec<HttpData>)
        ensures
            data_views(r@) == self@.ress,
    {
        &self.ress
    }

    /// The still-pending request bytes.
    pub fn pending_request(&self) -> (r: &Vec<u8>)
        ensures
            r@ == self@.req_raw,
    {
        &self.req_raw
    }

    /// The still-pending response bytes.
    pub fn pending_response(&self) -> (r: &Vec<u8>)
        ensures
            r@ == self@.res_raw,
    {
        &self.res_raw
    }

    /// Drains whatever is still pending on both sides into completed
    /// messages, framing each side that parses as a whole message; bytes
    /// that do not frame are dropped with an error. Meant for the close
    /// of a connection, after which nothing more will arrive.
    pub fn flush_pending(&mut self) -> (r: (ProxyResult<()>, ProxyResult<()>))
        ensures
            final(self)@.stream_id == old(self)@.stream_id,
            final(self)@.req_raw == Seq::<u8>::empty(),
            final(self)@.res_raw == Seq::<u8>::empty(),
            ({
                let parsed = parse_http_data(old(self)@.req_raw, StreamDirection::ClientToServer);
                if old(self)@.req_raw.len() == 0 {
                    r.0 is Ok && final(self)@.reqs == old(self)@.reqs
                } else {
                    match parsed {
                        Some(d) => r.0 is Ok && final(self)@.reqs == old(self)@.reqs.push(d),
                        None => r.0 is Err && final(self)@.reqs == old(self)@.reqs,
                    }
                }
            }),
            ({
                let parsed = parse_http_data(old(self)@.res_raw, StreamDirection::ServerToClient);
                if old(self)@.res_raw.len() == 0 {
                    r.1 is Ok && final(self)@.ress == old(self)@.ress
                } else {
                    match parsed {
                        Some(d) => r.1 is Ok && final(self)@.ress == old(self)@.ress.push(d),
                        None => r.1 is Err && final(self)@.ress == old(self)@.ress,
                    }
                }
            }),
    {
        let req_result: ProxyResult<()>;
        if self.req_raw.len() != 0 {
            let mut bs: Vec<u8> = Vec::new();
            core::mem::swap(&mut bs, &mut self.req_raw);
            let ghost reqs0 = self.reqs@;
            match HttpData::from_bytes(bs, StreamDirection::ClientToServer) {
                Ok(d) => {
                    self.reqs.push(d);
                    proof {
                        assert(data_views(self.reqs@) =~= data_views(reqs0).push(
                            self.reqs@.last()@,
                        ));
                    }
                    req_result = Ok(());
                },
                Err(e) => {
                    req_result = Err(e);
                },
            }
        } else {
            req_result = Ok(());
        }
        let res_result: ProxyResult<()>;
        if self.res_raw.len() != 0 {
            let mut bs: Vec<u8> = Vec::new();
            core::mem::swap(&mut bs, &mut self.res_raw);
            let ghost ress0 = self.ress@;
            match HttpData::from_bytes(bs, StreamDirection::ServerToClient) {
                Ok(d) => {
                    self.ress.push(d);
                    proof {
                        assert(data_views(self.ress@) =~= data_views(ress0).push(
                            self.ress@.last()@,
                        ));
                    }
                    res_result = Ok(());
                },
                Err(e) => {
                    res_result = Err(e);
                },
            }
        } else {
            res_result = Ok(());
        }
        (req_result, res_result)
    }
}

} // verus!
