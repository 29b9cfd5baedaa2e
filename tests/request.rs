use rtv::{Method, OwnedHeader, Request, ResponseHead, ResponseState, SimpleResponse, Status};

#[test]
fn request_builder() {
    Request::build()
        .https()
        .method(Method::Get)
        .host("example.com")
        .path("/foo")
        .query("bar", "baz")
        .header("Timeout", "infinite")
        .user_agent("foxcirc's rtv")
        .send("send &str".as_bytes())
        .send(b"send &[u8]")
        .send(&[0, 1, 2, 3])
        .finish();
}

#[test]
fn format_plain_get() {
    let req = Request::get().host("h").path("/").finish();
    let bytes = req.format();
    assert_eq!(
        String::from_utf8(bytes).unwrap(),
        "GET / HTTP/1.1\r\nHost: h\r\nContent-Length: 0\r\nConnection: close\r\nAccept-Encoding: identity\r\n\r\n"
    );
}

#[test]
fn format_collapses_slashes_and_appends_queries() {
    let req = Request::build()
        .method(Method::Post)
        .host("example.com")
        .path("///a/b")
        .query("x", "1")
        .query("y", "2")
        .set("User-Agent", "t")
        .send(b"hello")
        .finish();
    assert_eq!(
        String::from_utf8(req.format()).unwrap(),
        "POST /a/b?x=1&y=2 HTTP/1.1\r\nHost: example.com\r\nUser-Agent: t\r\nContent-Length: 5\r\nConnection: close\r\nAccept-Encoding: identity\r\n\r\nhello"
    );
}

#[test]
fn format_keeps_caller_accept_encoding() {
    let req = Request::get().host("h").set("Accept-Encoding", "gzip").finish();
    assert_eq!(
        String::from_utf8(req.format()).unwrap(),
        "GET / HTTP/1.1\r\nHost: h\r\nAccept-Encoding: gzip\r\nContent-Length: 0\r\nConnection: close\r\n\r\n"
    );
}

#[test]
fn format_body_length_is_decimal() {
    let body = vec![7u8; 1234];
    let req = Request::build().method(Method::Put).host("h").path("p").send(&body).finish();
    let out = req.format();
    let text = String::from_utf8_lossy(&out[..out.len() - 1234]).to_string();
    assert!(text.starts_with("PUT /p HTTP/1.1\r\n"));
    assert!(text.contains("Content-Length: 1234\r\n"));
    assert_eq!(&out[out.len() - 1234..], &body[..]);
}

#[test]
fn managed_headers_are_detected() {
    assert!(Request::get().set("Connection", "keep-alive").finish().has_managed_header());
    assert!(Request::get().set("Content-Length", "3").finish().has_managed_header());
    assert!(!Request::get().set("Accept", "*/*").finish().has_managed_header());
}

#[test]
fn builder_sets_fields() {
    let req = Request::post().secure().timeout(250).host("a.b").path("c").finish();
    assert!(matches!(req.method, Method::Post));
    assert!(matches!(req.mode, rtv::Mode::Secure));
    assert_eq!(req.timeout, Some(250));
    assert_eq!(req.uri.host, "a.b");
    assert_eq!(req.uri.path, "c");
    let from: Request = Request::get().host("x").into();
    assert_eq!(from.uri.host, "x");
}

#[test]
fn response_state_predicates() {
    assert!(ResponseState::Done.is_done() && ResponseState::Done.is_finished());
    assert!(!ResponseState::Done.is_error());
    for s in [ResponseState::TimedOut, ResponseState::Aborted, ResponseState::UnknownHost, ResponseState::Error] {
        assert!(s.is_error() && s.is_finished() && !s.is_done());
    }
    assert!(!ResponseState::Data(vec![1]).is_finished());
}

#[test]
fn header_lookup() {
    let head = ResponseHead {
        status: Status { code: 200, reason: "OK".to_string() },
        headers: vec![
            OwnedHeader { name: "Set-Cookie".to_string(), value: "a=1".to_string() },
            OwnedHeader { name: "X".to_string(), value: "y".to_string() },
            OwnedHeader { name: "Set-Cookie".to_string(), value: "b=2".to_string() },
        ],
        content_length: 0,
        transfer_chunked: false,
    };
    assert_eq!(head.get_header("Set-Cookie"), Some("a=1"));
    assert_eq!(head.get_header("Missing"), None);
    assert_eq!(head.all_headers("Set-Cookie"), vec!["a=1", "b=2"]);
    assert!(head.all_headers("Nope").is_empty());
}

#[test]
fn host_hash_is_stable_and_distinguishes() {
    assert_eq!(rtv::hash("example.com"), rtv::hash("example.com"));
    assert_ne!(rtv::hash("example.com"), rtv::hash("example.org"));
}

#[test]
fn into_string_checks_utf8() {
    let head = ResponseHead {
        status: Status { code: 200, reason: "OK".to_string() },
        headers: vec![],
        content_length: 2,
        transfer_chunked: false,
    };
    let ok = SimpleResponse { head: head.clone(), body: "hé".as_bytes().to_vec() };
    assert_eq!(ok.into_string().unwrap(), "hé");
    let bad = SimpleResponse { head, body: vec![0xff, 0xfe] };
    assert!(bad.into_string().is_err());
}
