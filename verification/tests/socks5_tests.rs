use mitm_capture::socks5::{parse_socks5_request, socks5_greeting_reply, socks5_reply,
    Socks5Target};

fn request_buffer(tail: &[u8]) -> Vec<u8> {
    let mut buf = vec![0u8; 1024];
    buf[..tail.len()].copy_from_slice(tail);
    buf
}

#[test]
fn ipv4_request_parses() {
    // tag 0x01: the four address bytes 127.0.0.1, then port 8080 big-endian
    let buf = request_buffer(&[5, 1, 0, 1, 127, 0, 0, 1, 0x1f, 0x90]);
    let t = parse_socks5_request(&buf).unwrap();
    assert_eq!(t, Socks5Target::Ipv4 { host: 0x7f000001, port: 8080 });
}

#[test]
fn domain_request_parses() {
    let mut head = vec![5u8, 3, 0, 3, 9];
    head.extend_from_slice(b"localhost");
    head.extend_from_slice(&[0x00, 0x50]);
    let buf = request_buffer(&head);
    let t = parse_socks5_request(&buf).unwrap();
    assert_eq!(t, Socks5Target::Domain { name: b"localhost".to_vec(), port: 80 });
}

#[test]
fn invalid_utf8_domain_is_error() {
    let mut head = vec![5u8, 3, 0, 3, 3];
    head.extend_from_slice(&[0xff, 0xfe, 0xfd]);
    head.extend_from_slice(&[0x00, 0x50]);
    let buf = request_buffer(&head);
    let e = parse_socks5_request(&buf).err().unwrap();
    assert_eq!(e.to_string(), "domain name is not valid UTF-8");
}

#[test]
fn unsupported_address_type_is_error() {
    // tag 0x04 (IPv6) is not supported
    let buf = request_buffer(&[5, 4, 0, 4, 0, 0, 0, 0]);
    assert!(parse_socks5_request(&buf).is_err());
}

#[test]
fn greeting_reply_is_no_auth() {
    assert_eq!(socks5_greeting_reply(), vec![5u8, 0]);
}

#[test]
fn reply_frames_carry_the_fixed_dummy_address() {
    assert_eq!(socks5_reply(0), vec![5u8, 0, 0, 1, 127, 0, 0, 1, 0, 80]);
    assert_eq!(socks5_reply(5), vec![5u8, 5, 0, 1, 127, 0, 0, 1, 0, 80]);
    assert_eq!(socks5_reply(8), vec![5u8, 8, 0, 1, 127, 0, 0, 1, 0, 80]);
}
