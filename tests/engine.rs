use rtv::{Action, Client, DnsOutcome, Request, ResponseState, Setup, SocketCommand};

fn question(host: &str) -> Vec<u8> {
    let mut q = Vec::new();
    for label in host.split('.') {
        q.push(label.len() as u8);
        q.extend_from_slice(label.as_bytes());
    }
    q.push(0);
    q.extend_from_slice(&[0, 1, 0, 1]);
    q
}

fn a_reply(id: u16, host: &str, addr: [u8; 4], ttl: u32) -> Vec<u8> {
    let mut p = vec![(id >> 8) as u8, id as u8, 0x81, 0x80, 0, 1, 0, 1, 0, 0, 0, 0];
    p.extend_from_slice(&question(host));
    p.extend_from_slice(&[0xc0, 0x0c, 0, 1, 0, 1]);
    p.extend_from_slice(&ttl.to_be_bytes());
    p.extend_from_slice(&[0, 4]);
    p.extend_from_slice(&addr);
    p
}

fn nxdomain_reply(id: u16, host: &str) -> Vec<u8> {
    let mut p = vec![(id >> 8) as u8, id as u8, 0x81, 0x83, 0, 1, 0, 0, 0, 0, 0, 0];
    p.extend_from_slice(&question(host));
    p
}

/// Resolves the first pending lookup with `reply` and returns the answers.
fn answer(client: &mut Client, reply: &[u8]) -> Vec<rtv::DnsResponse> {
    let (packets, errors, _) = client.dns_writable();
    assert!(errors.is_empty());
    assert!(!packets.is_empty());
    let (resp, _) = client.dns_receive(reply);
    vec![resp.expect("reply answers a lookup")]
}

/// Drives the record at `idx` through connect and write, then feeds `reply`.
fn exchange(client: &mut Client, idx: usize, token: usize, reply: &[u8], eof: bool) -> (Vec<rtv::Response>, Action) {
    assert!(matches!(client.on_event(idx, token, false), Action::Write));
    let n = client.unsent(idx).len();
    client.wrote(idx, n);
    assert!(matches!(client.on_event(idx, token, true), Action::Read));
    client.received(idx, reply, eof)
}

fn states(rs: Vec<rtv::Response>) -> Vec<ResponseState> {
    rs.into_iter().map(|r| r.state).collect()
}

/// A client that has resolved `h` to 1.2.3.4 for a first request.
fn client_with_cached_h() -> Client {
    let mut c = Client::new(0);
    let req = Request::get().host("h").finish();
    let (_, setup) = c.send(0, 1, &req);
    assert!(matches!(setup, Setup::Resolve(SocketCommand::Open)));
    let resolved = answer(&mut c, &a_reply(0, "h", [1, 2, 3, 4], 300));
    let (rs, act) = c.begin(0, 10, &resolved);
    assert!(rs.is_empty());
    assert!(matches!(act, Action::Connect(_)));
    c
}

#[test]
fn plain_request_identity_body() {
    let mut c = client_with_cached_h();
    let req = Request::get().host("h").path("/").finish();
    let (id, setup) = c.send(20, 2, &req);
    assert_eq!(id.inner, 1);
    match setup {
        Setup::Connect(to) => {
            assert_eq!(to.addr, 0x01020304);
            assert_eq!(to.port, 80);
            assert_eq!(to.token, 2);
            assert!(!to.secure);
            assert_eq!(to.server_name, "h");
        },
        _ => panic!("expected a cached address"),
    }
    assert_eq!(c.unsent(1), &req.format()[..]);
    let (rs, act) = exchange(&mut c, 1, 2, b"HTTP/1.1 200 OK\r\nContent-Length: 5\r\n\r\nhello", false);
    assert!(rs.iter().all(|r| r.id.inner == 1));
    let st = states(rs);
    assert_eq!(st.len(), 3);
    match &st[0] {
        ResponseState::Head(h) => {
            assert_eq!(h.status.code, 200);
            assert_eq!(h.status.reason, "OK");
            assert_eq!(h.content_length, 5);
            assert!(!h.transfer_chunked);
            assert_eq!(h.get_header("Content-Length"), Some("5"));
        },
        other => panic!("expected head, got {:?}", other),
    }
    assert_eq!(st[1], ResponseState::Data(b"hello".to_vec()));
    assert_eq!(st[2], ResponseState::Done);
    assert!(matches!(act, Action::Deregister));
}

#[test]
fn chunked_body() {
    let mut c = client_with_cached_h();
    let req = Request::get().host("h").finish();
    c.send(20, 2, &req);
    let (rs, act) = exchange(
        &mut c,
        1,
        2,
        b"HTTP/1.1 200 OK\r\nTransfer-Encoding: chunked\r\n\r\n3\r\nabc\r\n2\r\nde\r\n0\r\n\r\n",
        false,
    );
    let st = states(rs);
    match &st[0] {
        ResponseState::Head(h) => {
            assert!(h.transfer_chunked);
            assert_eq!(h.content_length, 0);
        },
        other => panic!("expected head, got {:?}", other),
    }
    let mut body = Vec::new();
    for s in &st[1..st.len() - 1] {
        match s {
            ResponseState::Data(d) => body.extend_from_slice(d),
            other => panic!("expected data, got {:?}", other),
        }
    }
    assert_eq!(body, b"abcde");
    assert_eq!(st[st.len() - 1], ResponseState::Done);
    assert!(matches!(act, Action::Deregister));
}

#[test]
fn chunked_body_in_pieces() {
    let mut c = client_with_cached_h();
    c.send(20, 2, &Request::get().host("h").finish());
    let (rs, act) = exchange(&mut c, 1, 2, b"HTTP/1.1 200 OK\r\nTransfer-Encoding: chunked\r\n\r\n3\r\nab", false);
    assert!(matches!(act, Action::Nothing));
    let mut body = Vec::new();
    for s in states(rs) {
        if let ResponseState::Data(d) = s {
            body.extend_from_slice(&d);
        }
    }
    let (rs, _) = c.received(1, b"c\r\n2\r", false);
    for s in states(rs) {
        if let ResponseState::Data(d) = s {
            body.extend_from_slice(&d);
        }
    }
    let (rs, act) = c.received(1, b"\nde\r\n0\r\n\r\n", false);
    let st = states(rs);
    for s in &st {
        if let ResponseState::Data(d) = s {
            body.extend_from_slice(d);
        }
    }
    assert_eq!(body, b"abcde");
    assert_eq!(st.last(), Some(&ResponseState::Done));
    assert!(matches!(act, Action::Deregister));
}

#[test]
fn deadline_in_dns_phase() {
    let mut c = Client::new(0);
    let req = Request::get().host("slow.example").timeout(100).finish();
    c.send(1000, 1, &req);
    assert_eq!(c.timeout(1000), Some(100));
    let (resolved, cmd) = c.dns_expire(1150);
    assert_eq!(resolved.len(), 1);
    assert_eq!(resolved[0].outcome, DnsOutcome::TimedOut);
    assert_eq!(cmd, SocketCommand::Close);
    let (rs, act) = c.begin(0, 1150, &resolved);
    assert_eq!(states(rs), vec![ResponseState::TimedOut]);
    assert!(matches!(act, Action::Skip));
    c.sweep();
    assert_eq!(c.len(), 0);
}

#[test]
fn nxdomain() {
    let mut c = Client::new(0);
    c.send(0, 1, &Request::get().host("no.such.host").finish());
    let resolved = answer(&mut c, &nxdomain_reply(0, "no.such.host"));
    assert_eq!(resolved[0].outcome, DnsOutcome::Unknown);
    let (rs, _) = c.begin(0, 5, &resolved);
    assert_eq!(states(rs), vec![ResponseState::UnknownHost]);
    c.sweep();
    assert_eq!(c.len(), 0);
}

#[test]
fn peer_closes_mid_body() {
    let mut c = client_with_cached_h();
    c.send(20, 2, &Request::get().host("h").finish());
    let (rs, act) = exchange(&mut c, 1, 2, b"HTTP/1.1 200 OK\r\nContent-Length: 10\r\n\r\nabc", true);
    let st = states(rs);
    assert_eq!(st.len(), 3);
    match &st[0] {
        ResponseState::Head(h) => assert_eq!(h.content_length, 10),
        other => panic!("expected head, got {:?}", other),
    }
    assert_eq!(st[1], ResponseState::Data(b"abc".to_vec()));
    assert_eq!(st[2], ResponseState::Aborted);
    assert!(matches!(act, Action::Deregister));
}

#[test]
fn two_concurrent_requests_same_host() {
    let mut c = Client::new(0);
    let req = Request::get().host("h").finish();
    let (_, first) = c.send(0, 1, &req);
    assert!(matches!(first, Setup::Resolve(SocketCommand::Open)));
    let (_, second) = c.send(1, 2, &req);
    assert!(matches!(second, Setup::Resolve(SocketCommand::Keep)));
    let (packets, _, _) = c.dns_writable();
    assert_eq!(packets.len(), 1);
    let (resp, cmd) = c.dns_receive(&a_reply(0, "h", [1, 2, 3, 4], 60));
    assert_eq!(cmd, SocketCommand::Close);
    let resolved = vec![resp.unwrap()];
    for idx in 0..2 {
        let (rs, act) = c.begin(idx, 5, &resolved);
        assert!(rs.is_empty());
        assert!(matches!(act, Action::Connect(_)));
    }
    let (a, _) = exchange(&mut c, 0, 1, b"HTTP/1.1 200 OK\r\nContent-Length: 1\r\n\r\nx", false);
    let (b, _) = exchange(&mut c, 1, 2, b"HTTP/1.1 404 Not Found\r\nContent-Length: 2\r\n\r\nyz", false);
    assert!(a.iter().all(|r| r.id.inner == 0));
    assert!(b.iter().all(|r| r.id.inner == 1));
    assert_eq!(states(a)[1..], [ResponseState::Data(b"x".to_vec()), ResponseState::Done]);
    assert_eq!(states(b)[1..], [ResponseState::Data(b"yz".to_vec()), ResponseState::Done]);
    c.sweep();
    assert_eq!(c.len(), 0);
}

#[test]
fn cache_expires_after_ttl() {
    let mut c = client_with_cached_h();
    let req = Request::get().host("h").finish();
    let (_, within) = c.send(10 + 300_000, 2, &req);
    assert!(matches!(within, Setup::Connect(_)));
    let (_, after) = c.send(10 + 300_001, 3, &req);
    assert!(matches!(after, Setup::Resolve(_)));
}

#[test]
fn missing_length_is_empty_body() {
    let mut c = client_with_cached_h();
    c.send(20, 2, &Request::get().host("h").finish());
    let (rs, act) = exchange(&mut c, 1, 2, b"HTTP/1.1 204 No Content\r\n\r\n", false);
    let st = states(rs);
    assert_eq!(st.len(), 2);
    assert_eq!(st[1], ResponseState::Done);
    assert!(matches!(act, Action::Deregister));
}

#[test]
fn malformed_heads_are_errors() {
    for reply in [
        &b"HTTP/1.1 200 OK\r\nContent-Length: 1x\r\n\r\n"[..],
        &b"HTTP/1.1 200 OK\r\nTransfer-Encoding: gzip\r\n\r\n"[..],
        &b"garbage\r\n\r\n"[..],
    ] {
        let mut c = client_with_cached_h();
        c.send(20, 2, &Request::get().host("h").finish());
        let (rs, act) = exchange(&mut c, 1, 2, reply, false);
        assert_eq!(states(rs), vec![ResponseState::Error]);
        assert!(matches!(act, Action::Deregister));
    }
}

#[test]
fn partial_head_waits_then_eof_is_error() {
    let mut c = client_with_cached_h();
    c.send(20, 2, &Request::get().host("h").finish());
    let (rs, act) = exchange(&mut c, 1, 2, b"HTTP/1.1 200 OK\r\nContent-Le", false);
    assert!(rs.is_empty());
    assert!(matches!(act, Action::Nothing));
    let (rs, _) = c.received(1, b"ngth: 2\r\n\r\nok", false);
    let st = states(rs);
    assert_eq!(st[1], ResponseState::Data(b"ok".to_vec()));
    assert_eq!(st[2], ResponseState::Done);

    let mut c = client_with_cached_h();
    c.send(20, 2, &Request::get().host("h").finish());
    let (rs, _) = exchange(&mut c, 1, 2, b"HTTP/1.1 200 OK\r\n", true);
    assert_eq!(states(rs), vec![ResponseState::Error]);
}

#[test]
fn extra_bytes_beyond_length_are_not_delivered() {
    let mut c = client_with_cached_h();
    c.send(20, 2, &Request::get().host("h").finish());
    let (rs, _) = exchange(&mut c, 1, 2, b"HTTP/1.1 200 OK\r\nContent-Length: 2\r\n\r\nabcdef", false);
    assert_eq!(states(rs)[1], ResponseState::Data(b"ab".to_vec()));
}

#[test]
fn header_values_are_made_strings() {
    let mut c = client_with_cached_h();
    c.send(20, 2, &Request::get().host("h").finish());
    let (rs, _) = exchange(&mut c, 1, 2, b"HTTP/1.1 200 OK\r\nX-Raw: a\xffb\r\nContent-Length: 0\r\n\r\n", false);
    match &states(rs)[0] {
        ResponseState::Head(h) => {
            assert_eq!(h.headers[0].name, "X-Raw");
            assert_eq!(h.headers[0].value, "a\u{fffd}b");
        },
        other => panic!("expected head, got {:?}", other),
    }
}

#[test]
fn partial_write_keeps_the_rest() {
    let mut c = client_with_cached_h();
    let req = Request::get().host("h").finish();
    c.send(20, 2, &req);
    let all = req.format();
    c.wrote(1, 4);
    assert_eq!(c.unsent(1), &all[4..]);
    assert!(matches!(c.on_event(1, 2, false), Action::Write));
    assert!(matches!(c.on_event(1, 9, true), Action::Nothing));
}

#[test]
fn timeout_shrinks_as_time_passes() {
    let mut c = Client::new(0);
    assert_eq!(c.timeout(0), None);
    c.send(0, 1, &Request::get().host("a").timeout(500).finish());
    c.send(100, 2, &Request::get().host("b").timeout(300).finish());
    c.send(100, 3, &Request::get().host("c").finish());
    assert_eq!(c.timeout(100), Some(300));
    assert_eq!(c.timeout(200), Some(200));
    assert_eq!(c.timeout(450), Some(0));
    assert_eq!(c.timeout(1000), Some(0));
}

#[test]
fn dns_query_packet_is_dns_parser_output() {
    let mut c = Client::new(0);
    c.send(0, 1, &Request::get().host("example.com").finish());
    let (packets, errors, cmd) = c.dns_writable();
    assert!(errors.is_empty());
    assert_eq!(cmd, SocketCommand::Keep);
    assert_eq!(
        packets,
        vec![b"\x00\x00\x01\x00\x00\x01\x00\x00\x00\x00\x00\x00\x07example\x03com\x00\x00\x01\x00\x01".to_vec()]
    );
    let (again, _, _) = c.dns_writable();
    assert!(again.is_empty());
}

#[test]
fn overlong_label_is_an_error_answer() {
    let mut c = Client::new(0);
    let host = "a".repeat(70);
    c.send(0, 1, &Request::get().host(&host).finish());
    let (packets, errors, cmd) = c.dns_writable();
    assert!(packets.is_empty());
    assert_eq!(errors.len(), 1);
    assert_eq!(errors[0].outcome, DnsOutcome::Error);
    assert_eq!(cmd, SocketCommand::Close);
    let (rs, _) = c.begin(0, 1, &errors);
    assert_eq!(states(rs), vec![ResponseState::Error]);
}

#[test]
fn dns_reply_without_address_is_error() {
    let mut c = Client::new(0);
    c.send(0, 1, &Request::get().host("h").finish());
    let mut reply = nxdomain_reply(0, "h");
    reply[3] = 0x80;
    let resolved = answer(&mut c, &reply);
    assert_eq!(resolved[0].outcome, DnsOutcome::Error);
}

#[test]
fn dns_reply_with_address_is_known() {
    let reply = a_reply(7, "h", [10, 0, 0, 1], 2);
    let r = rtv::dns::parse_from_packet(&reply).unwrap();
    assert_eq!(r.id.inner, 7);
    assert_eq!(r.outcome, DnsOutcome::Known { addr: 0x0a000001, ttl: 2000 });
    assert_eq!(rtv::dns::parse_from_packet(&[1]), None);
    assert_eq!(rtv::dns::parse_from_packet(&[0, 9, 1]).unwrap().outcome, DnsOutcome::Error);
}

#[test]
fn unrelated_datagram_is_dropped() {
    let mut c = Client::new(0);
    c.send(0, 1, &Request::get().host("h").finish());
    let (resp, cmd) = c.dns_receive(&a_reply(42, "h", [1, 1, 1, 1], 1));
    assert!(resp.is_none());
    assert_eq!(cmd, SocketCommand::Keep);
}
