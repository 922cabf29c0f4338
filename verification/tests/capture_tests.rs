use mitm_capture::capture::{HttpTcpData, ProxyData, StreamDirection};

fn chunk(direction: StreamDirection, bytes: &[u8], id: &str) -> ProxyData {
    ProxyData::new(direction, bytes.to_vec(), bytes.len(), id.to_string())
}

#[test]
fn reassembly_flushes_on_next_message_start() {
    let mut tcp = HttpTcpData::new();
    tcp.push(chunk(StreamDirection::ClientToServer, b"GET /a HTTP/1.1\r\n\r\n", "c1")).unwrap();
    assert_eq!(tcp.requests().len(), 0);
    assert_eq!(tcp.pending_request().as_slice(), b"GET /a HTTP/1.1\r\n\r\n");

    tcp.push(chunk(StreamDirection::ClientToServer, b"GET /b HTTP/1.1\r\n\r\n", "c1")).unwrap();
    assert_eq!(tcp.requests().len(), 1);
    assert_eq!(tcp.requests()[0].header().uri().as_slice(), b"/a");
    assert_eq!(tcp.pending_request().as_slice(), b"GET /b HTTP/1.1\r\n\r\n");

    tcp.push(chunk(StreamDirection::ClientToServer, b"GET /c HTTP/1.1\r\n\r\n", "c1")).unwrap();
    assert_eq!(tcp.requests().len(), 2);
    assert_eq!(tcp.requests()[1].header().uri().as_slice(), b"/b");
}

#[test]
fn response_side_flushes_on_status_line_prefix() {
    let mut tcp = HttpTcpData::new();
    tcp.push(chunk(StreamDirection::ServerToClient, b"HTTP/1.1 200 OK\r\n\r\none", "c1")).unwrap();
    assert_eq!(tcp.responses().len(), 0);
    tcp.push(chunk(StreamDirection::ServerToClient, b"HTTP/1.1 200 OK\r\n\r\ntwo", "c1")).unwrap();
    assert_eq!(tcp.responses().len(), 1);
    assert_eq!(tcp.responses()[0].body().bytes().as_slice(), b"one");
}

#[test]
fn directions_do_not_touch_each_other() {
    let mut tcp = HttpTcpData::new();
    tcp.push(chunk(StreamDirection::ClientToServer, b"GET /a HTTP/1.1\r\n\r\n", "c1")).unwrap();
    tcp.push(chunk(StreamDirection::ServerToClient, b"HTTP/1.1 200 OK\r\n\r\n", "c1")).unwrap();
    assert_eq!(tcp.pending_request().as_slice(), b"GET /a HTTP/1.1\r\n\r\n");
    assert_eq!(tcp.pending_response().as_slice(), b"HTTP/1.1 200 OK\r\n\r\n");
    assert_eq!(tcp.requests().len(), 0);
    assert_eq!(tcp.responses().len(), 0);
}

#[test]
fn two_connections_accumulate_independently() {
    let mut a = HttpTcpData::new();
    let mut b = HttpTcpData::new();
    // chunks of the two connections arrive interleaved; each accumulator
    // sees only its own connection's stream, in its own order
    a.push(chunk(StreamDirection::ClientToServer, b"GET /a1 HTTP/1.1\r\n\r\n", "a")).unwrap();
    b.push(chunk(StreamDirection::ClientToServer, b"GET /b1 HTTP/1.1\r\n\r\n", "b")).unwrap();
    a.push(chunk(StreamDirection::ClientToServer, b"GET /a2 HTTP/1.1\r\n\r\n", "a")).unwrap();
    b.push(chunk(StreamDirection::ClientToServer, b"GET /b2 HTTP/1.1\r\n\r\n", "b")).unwrap();
    assert_eq!(a.requests().len(), 1);
    assert_eq!(a.requests()[0].header().uri().as_slice(), b"/a1");
    assert_eq!(a.pending_request().as_slice(), b"GET /a2 HTTP/1.1\r\n\r\n");
    assert_eq!(b.requests().len(), 1);
    assert_eq!(b.requests()[0].header().uri().as_slice(), b"/b1");
    assert_eq!(b.pending_request().as_slice(), b"GET /b2 HTTP/1.1\r\n\r\n");
}

#[test]
fn pending_tail_flushes_on_close() {
    let mut tcp = HttpTcpData::new();
    tcp.push(chunk(StreamDirection::ClientToServer, b"GET /a HTTP/1.1\r\n\r\n", "c1")).unwrap();
    let (rq, rs) = tcp.flush_pending();
    assert!(rq.is_ok());
    assert!(rs.is_ok());
    assert_eq!(tcp.requests().len(), 1);
    assert_eq!(tcp.requests()[0].header().uri().as_slice(), b"/a");
    assert_eq!(tcp.pending_request().len(), 0);
}

#[test]
fn unframeable_pending_bytes_error_but_chunk_absorbed() {
    let mut tcp = HttpTcpData::new();
    // no blank-line boundary in the pending bytes
    tcp.push(chunk(StreamDirection::ClientToServer, b"GET /a HTTP/1.1", "c1")).unwrap();
    let r = tcp.push(chunk(StreamDirection::ClientToServer, b"GET /b HTTP/1.1\r\n\r\n", "c1"));
    // the failure is reported, no message is framed, and the new chunk's
    // bytes are still absorbed into the reset accumulator
    assert!(r.is_err());
    assert_eq!(tcp.requests().len(), 0);
    assert_eq!(tcp.pending_request().as_slice(), b"GET /b HTTP/1.1\r\n\r\n");
}

#[test]
fn flush_keys_on_the_payload_not_the_buffer() {
    let mut tcp = HttpTcpData::new();
    tcp.push(chunk(StreamDirection::ClientToServer, b"GET /a HTTP/1.1\r\n\r\n", "c1")).unwrap();
    // the buffer opens with a method token, but only two of its bytes
    // were filled by the read: no new message starts
    let pd = ProxyData::new(
        StreamDirection::ClientToServer,
        b"GET /b HTTP/1.1\r\n\r\n".to_vec(),
        2,
        "c1".to_string(),
    );
    tcp.push(pd).unwrap();
    assert_eq!(tcp.requests().len(), 0);
    assert_eq!(tcp.pending_request().as_slice(), b"GET /a HTTP/1.1\r\n\r\nGE");
}

#[test]
fn non_method_chunk_appends_without_flush() {
    let mut tcp = HttpTcpData::new();
    tcp.push(chunk(StreamDirection::ClientToServer, b"GET /a HTTP/1.1\r\n", "c1")).unwrap();
    tcp.push(chunk(StreamDirection::ClientToServer, b"Host: a.com\r\n\r\n", "c1")).unwrap();
    assert_eq!(tcp.requests().len(), 0);
    assert_eq!(
        tcp.pending_request().as_slice(),
        b"GET /a HTTP/1.1\r\nHost: a.com\r\n\r\n"
    );
}

#[test]
fn proxy_data_accessors() {
    let pd = ProxyData::new(StreamDirection::ClientToServer, b"hello".to_vec(), 4, "c9".to_string());
    assert!(matches!(pd.direction(), StreamDirection::ClientToServer));
    assert_eq!(pd.buffer().as_slice(), b"hello");
    assert_eq!(pd.len(), 4);
    assert_eq!(pd.stream_id(), "c9");
}

#[test]
fn only_filled_prefix_is_absorbed() {
    let mut tcp = HttpTcpData::new();
    let mut buf = b"GET /a HTTP/1.1\r\n\r\n".to_vec();
    let len = buf.len();
    buf.extend_from_slice(&[0u8; 16]);
    tcp.push(ProxyData::new(StreamDirection::ClientToServer, buf, len, "c1".to_string()))
        .unwrap();
    assert_eq!(tcp.pending_request().as_slice(), b"GET /a HTTP/1.1\r\n\r\n");
}

#[test]
fn direction_names() {
    assert_eq!(StreamDirection::ClientToServer.as_str(), "ClientToServer");
    assert_eq!(StreamDirection::ServerToClient.as_str(), "ServerToClient");
}
