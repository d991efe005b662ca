use picast::socks::{
    bytes_awaited, parse_connect_request, parse_host_port, request_progress, socks5_advance,
    socks5_greeting, socks5_reply_name, split_words, RequestState, SocksError, SocksStage,
};

#[test]
fn greeting_offers_one_method() {
    assert_eq!(socks5_greeting(), vec![0x05, 0x01, 0x02]);
}

#[test]
fn handshake_to_connection() {
    let step = |stage, reply: &[u8]| {
        socks5_advance("example.com", 443, "picast-user", stage, reply).unwrap()
    };
    let (stage, bytes) = step(SocksStage::Greeting, &[5, 2]);
    assert_eq!(stage, SocksStage::Auth);
    let mut auth = vec![1, 11];
    auth.extend_from_slice(b"picast-user");
    auth.push(0);
    assert_eq!(bytes, auth);
    let (stage, bytes) = step(stage, &[1, 0]);
    assert_eq!(stage, SocksStage::Request);
    let mut connect = vec![5, 1, 0, 3, 11];
    connect.extend_from_slice(b"example.com");
    connect.extend_from_slice(&[0x01, 0xbb]);
    assert_eq!(bytes, connect);
    let (v4, bytes) = step(stage, &[5, 0, 0, 1]);
    assert_eq!(v4, SocksStage::Address(6));
    assert!(bytes.is_empty());
    let (name, _) = step(stage, &[5, 0, 0, 3]);
    assert_eq!(bytes_awaited(name), 1);
    let (address, _) = step(name, &[20]);
    assert_eq!(bytes_awaited(address), 22);
    let (v6, _) = step(stage, &[5, 0, 0, 4]);
    assert_eq!(bytes_awaited(v6), 18);
    let (end, _) = step(v4, &[0; 6]);
    assert_eq!(end, SocksStage::Connected);
}

#[test]
fn handshake_failures() {
    let fail = |host: &str, user: &str, stage, reply: &[u8]| {
        socks5_advance(host, 1, user, stage, reply).err().unwrap().message()
    };
    assert_eq!(fail("h", "u", SocksStage::Greeting, &[4, 2]), "not SOCKS5: version 4");
    assert_eq!(
        fail("h", "u", SocksStage::Greeting, &[5, 0xff]),
        "SOCKS5: expected username/password auth (0x02), got 0xff"
    );
    assert_eq!(
        fail("h", "u", SocksStage::Greeting, &[5, 0]),
        "SOCKS5: expected username/password auth (0x02), got 0x00"
    );
    let long = "x".repeat(256);
    assert_eq!(fail("h", &long, SocksStage::Greeting, &[5, 2]), "SOCKS5 username too long");
    assert_eq!(fail("h", "u", SocksStage::Auth, &[1, 1]), "SOCKS5 auth rejected: status 1");
    assert_eq!(fail(&long, "u", SocksStage::Auth, &[1, 0]), "hostname too long: 256 bytes");
    assert_eq!(fail("h", "u", SocksStage::Request, &[4, 0, 0, 1]), "SOCKS5 reply version 4");
    assert_eq!(
        fail("h", "u", SocksStage::Request, &[5, 5, 0, 1]),
        "SOCKS5 CONNECT failed: status 5 (connection refused)"
    );
    assert_eq!(fail("h", "u", SocksStage::Request, &[5, 0, 0, 9]), "SOCKS5 unknown ATYP 9");
}

#[test]
fn targets() {
    let parse = |t: &str| parse_host_port(t).unwrap();
    assert_eq!(parse("example.com:443"), ("example.com".to_string(), 443));
    assert_eq!(parse("[::1]:8080"), ("[::1]".to_string(), 8080));
    assert_eq!(parse("[::1]::80"), ("[::1]".to_string(), 80));
    assert_eq!(parse("a:b:1"), ("a:b".to_string(), 1));
    let fail = |t: &str| parse_host_port(t).err().unwrap().message();
    assert_eq!(fail("example.com"), "no port in CONNECT target: example.com");
    assert_eq!(fail("example.com:x"), "invalid port in CONNECT target: example.com:x");
    assert_eq!(fail("example.com:65536"), "invalid port in CONNECT target: example.com:65536");
}

#[test]
fn connect_requests() {
    let target = |t: &str| parse_connect_request(t.as_bytes().to_vec());
    assert_eq!(
        target("CONNECT example.com:443 HTTP/1.1\r\nHost: x\r\n\r\n").unwrap(),
        "example.com:443"
    );
    assert_eq!(
        target("GET / HTTP/1.1\r\n\r\n").err().unwrap().message(),
        "invalid CONNECT request: \"GET / HTTP/1.1\""
    );
    assert!(matches!(target("CONNECT x\r\n\r\n"), Err(SocksError::InvalidRequest(_))));
    assert_eq!(
        parse_connect_request(vec![0xff, 0xfe]).err().unwrap().message(),
        "CONNECT request not UTF-8: invalid utf-8 sequence of 1 bytes from index 0"
    );
    assert_eq!(split_words(" a\tb  c "), vec!["a", "b", "c"]);
}

#[test]
fn request_reading() {
    assert!(matches!(request_progress(b"CONN", 4), RequestState::Incomplete));
    assert!(matches!(request_progress(b"x\r\n\r\n", 5), RequestState::Complete));
    assert!(matches!(
        request_progress(b"x", 0),
        RequestState::Failed(SocksError::ClientGone)
    ));
    assert!(matches!(
        request_progress(&[b'x'; 4096], 1),
        RequestState::Failed(SocksError::RequestTooLarge)
    ));
    assert_eq!(SocksError::ClientGone.message(), "client disconnected before sending CONNECT");
    assert_eq!(SocksError::RequestTooLarge.message(), "CONNECT request too large");
    assert_eq!(socks5_reply_name(6), "TTL expired");
    assert_eq!(socks5_reply_name(77), "unknown");
}
