use mitm_capture::capture::StreamDirection;
use mitm_capture::capture::ProxyData;
use mitm_capture::proxy::{connect_target, host_part, is_connect_request, parse_u16_token,
    plain_proxy_target, relay_step};
use tokio::io::{AsyncReadExt, AsyncWriteExt};

#[test]
fn connect_target_extracts_host_and_port() {
    let req = b"CONNECT example.com:443 HTTP/1.1\r\nHost: example.com:443\r\n\r\n";
    let t = connect_target(req).unwrap();
    assert_eq!(t.as_slice(), b"example.com:443");
    assert_eq!(host_part(t.as_slice()).as_slice(), b"example.com");
}

#[test]
fn connect_without_target_is_error() {
    assert!(connect_target(b"GET / HTTP/1.1\r\n\r\n").is_err());
    assert!(connect_target(b"CONNECT example.com:443").is_err());
}

#[test]
fn connect_in_invalid_utf8_chunk_is_error() {
    let mut req = b"CONNECT example.com:443 HTTP/1.1\r\nX: ".to_vec();
    req.push(0xff);
    let e = connect_target(&req).err().unwrap();
    assert_eq!(e.to_string(), "request is not valid UTF-8");
}

#[test]
fn connect_sniff_checks_the_literal_prefix() {
    assert!(is_connect_request(b"CONNECT example.com:443 HTTP/1.1"));
    assert!(!is_connect_request(b"GET / HTTP/1.1"));
    assert!(!is_connect_request(b"CONN"));
}

#[test]
fn host_part_without_colon_is_whole_token() {
    assert_eq!(host_part(b"example.com").as_slice(), b"example.com");
}

#[test]
fn plain_target_default_port() {
    let req = b"GET http://www.example.com/ HTTP/1.1\r\nHost: www.example.com\r\n\r\n";
    let t = plain_proxy_target(req, req.len()).unwrap();
    assert_eq!(t.host.as_slice(), b"www.example.com");
    assert_eq!(t.port, 80);
    assert_eq!(t.scheme_start, 4);
    assert_eq!(t.path_start, 4 + 7 + 15);
    assert_eq!(&req[t.path_start..t.path_start + 1], b"/");
}

#[test]
fn plain_target_explicit_port() {
    let req = b"GET http://h.example:8080/x HTTP/1.1\r\n\r\n";
    let t = plain_proxy_target(req, req.len()).unwrap();
    assert_eq!(t.host.as_slice(), b"h.example");
    assert_eq!(t.port, 8080);
}

#[test]
fn plain_target_errors() {
    let req = b"GET /no-scheme HTTP/1.1\r\n\r\n";
    assert!(plain_proxy_target(req, req.len()).is_err());
    let req = b"GET http://no-slash-after HTTP";
    assert!(plain_proxy_target(req, req.len()).is_err());
    let req = b"GET http://h:99999/ HTTP/1.1\r\n\r\n";
    assert!(plain_proxy_target(req, req.len()).is_err());
    let mut req = b"GET http://h".to_vec();
    req.push(0xff);
    req.extend_from_slice(b"x/ HTTP/1.1\r\n\r\n");
    let e = plain_proxy_target(&req, req.len()).err().unwrap();
    assert_eq!(e.to_string(), "proxied address is not valid UTF-8");
}

#[test]
fn port_token_values() {
    assert_eq!(parse_u16_token(b"8080"), Some(8080));
    assert_eq!(parse_u16_token(b"+80"), Some(80));
    assert_eq!(parse_u16_token(b"65535"), Some(65535));
    assert_eq!(parse_u16_token(b"65536"), None);
    assert_eq!(parse_u16_token(b"-80"), None);
    assert_eq!(parse_u16_token(b""), None);
    assert_eq!(parse_u16_token(b"8a"), None);
}

#[test]
fn loopback_relay_preserves_bytes_in_order() {
    let rt = tokio::runtime::Runtime::new().unwrap();
    rt.block_on(async {
        let (mut client, proxy_in) = tokio::io::duplex(1024);
        let (proxy_out, mut backend) = tokio::io::duplex(1024);
        let relay = tokio::spawn(async move {
            let (mut reader, _in_write) = tokio::io::split(proxy_in);
            let (_out_read, mut writer) = tokio::io::split(proxy_out);
            let mut captured: Vec<ProxyData> = Vec::new();
            loop {
                let mut buffer = vec![0u8; 16];
                let len = reader.read(&mut buffer).await.unwrap();
                // the bytes go to the peer before the end-of-stream check
                writer.write_all(&buffer[..len]).await.unwrap();
                match relay_step(&buffer, len, StreamDirection::ClientToServer, "t") {
                    None => break,
                    Some(chunk) => captured.push(chunk),
                }
            }
            captured
        });
        client.write_all(b"hello ").await.unwrap();
        client.write_all(b"world").await.unwrap();
        client.shutdown().await.unwrap();
        drop(client);
        let captured = relay.await.unwrap();
        let mut seen = vec![0u8; 11];
        backend.read_exact(&mut seen).await.unwrap();
        assert_eq!(&seen, b"hello world");
        let mut mirrored: Vec<u8> = Vec::new();
        for chunk in &captured {
            assert!(chunk.len() > 0);
            mirrored.extend_from_slice(&chunk.buffer()[..chunk.len()]);
        }
        assert_eq!(mirrored, b"hello world".to_vec());
    });
}

#[test]
fn zero_length_read_emits_no_chunk() {
    let buf = vec![0u8; 16];
    assert!(relay_step(&buf, 0, StreamDirection::ClientToServer, "c1").is_none());
}

#[test]
fn relay_step_tags_the_read_bytes() {
    let buf = b"abcdef".to_vec();
    let pd = relay_step(&buf, 4, StreamDirection::ServerToClient, "c7").unwrap();
    assert!(matches!(pd.direction(), StreamDirection::ServerToClient));
    assert_eq!(pd.buffer().as_slice(), b"abcdef");
    assert_eq!(pd.len(), 4);
    assert_eq!(pd.stream_id(), "c7");
}
