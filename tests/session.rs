use https_proxy::auth::ProxyCredentials;
use https_proxy::connect::{parse_connect_line, split_tokens};
use https_proxy::request::{find_line, read_first_line, request_complete};
use https_proxy::session::{evaluate, Action, Event, Phase, Response, Session, Verdict};

fn creds() -> ProxyCredentials {
    ProxyCredentials::new("user".to_string(), "pass".to_string())
}

fn open_session(c: &ProxyCredentials) -> Session {
    let mut s = Session::new();
    assert_eq!(s.handle(c, Event::HandshakeDone), Action::ReadMore);
    s
}

fn answer(req: &str) -> (Action, Phase) {
    let c = creds();
    let mut s = open_session(&c);
    let a = s.handle(&c, Event::Received(req.as_bytes().to_vec()));
    (a, s.phase())
}

#[test]
fn valid_connect_is_established() {
    let c = creds();
    let mut s = open_session(&c);
    let req = "CONNECT example.com:443 HTTP/1.1\r\nProxy-Authorization: Basic dXNlcjpwYXNz\r\n\r\n";
    assert_eq!(s.handle(&c, Event::Received(req.as_bytes().to_vec())), Action::Dial);
    assert_eq!(s.phase(), Phase::Dialing);
    let t = s.target().as_ref().unwrap();
    assert_eq!(t.host, b"example.com".to_vec());
    assert_eq!(t.port, b"443".to_vec());
    assert_eq!(s.handle(&c, Event::Connected), Action::Establish);
    assert_eq!(s.phase(), Phase::Tunneling);
    assert_eq!(Response::Established.to_bytes(), b"HTTP/1.1 200 Connection Established\r\n\r\n".to_vec());
    assert_eq!(s.handle(&c, Event::RelayEnded), Action::Close);
    assert_eq!(s.phase(), Phase::Closed);
}

#[test]
fn wrong_password_is_refused() {
    let req = "CONNECT example.com:443 HTTP/1.1\r\nProxy-Authorization: Basic dXNlcjp3cm9uZw==\r\n\r\n";
    assert_eq!(answer(req), (Action::Reply(Response::AuthRequired), Phase::Closed));
    assert_eq!(
        Response::AuthRequired.to_bytes(),
        b"HTTP/1.1 407 Proxy Authentication Required\r\nProxy-Authenticate: Basic realm=\"Proxy\"\r\n\r\n".to_vec()
    );
}

#[test]
fn get_method_is_bad_request() {
    let req = "GET example.com:443 HTTP/1.1\r\nProxy-Authorization: Basic dXNlcjpwYXNz\r\n\r\n";
    assert_eq!(answer(req), (Action::Reply(Response::BadRequest), Phase::Closed));
    assert_eq!(Response::BadRequest.to_bytes(), b"HTTP/1.1 400 Bad Request\r\n\r\n".to_vec());
}

#[test]
fn unreachable_target_is_bad_gateway() {
    let c = creds();
    let mut s = open_session(&c);
    let req = "CONNECT 10.255.255.1:9999 HTTP/1.1\r\nProxy-Authorization: Basic dXNlcjpwYXNz\r\n\r\n";
    assert_eq!(s.handle(&c, Event::Received(req.as_bytes().to_vec())), Action::Dial);
    let t = s.target().as_ref().unwrap();
    assert_eq!(t.host, b"10.255.255.1".to_vec());
    assert_eq!(t.port, b"9999".to_vec());
    assert_eq!(s.handle(&c, Event::ConnectFailed), Action::Reply(Response::BadGateway));
    assert_eq!(s.phase(), Phase::Closed);
    assert_eq!(Response::BadGateway.to_bytes(), b"HTTP/1.1 502 Bad Gateway\r\n\r\n".to_vec());
}

#[test]
fn missing_header_is_refused() {
    let req = "CONNECT example.com:443 HTTP/1.1\r\nHost: example.com\r\n\r\n";
    assert_eq!(answer(req).0, Action::Reply(Response::AuthRequired));
}

#[test]
fn header_prefix_is_case_sensitive() {
    let req = "CONNECT example.com:443 HTTP/1.1\r\nproxy-authorization: Basic dXNlcjpwYXNz\r\n\r\n";
    assert_eq!(answer(req).0, Action::Reply(Response::AuthRequired));
}

#[test]
fn malformed_base64_is_refused() {
    let req = "CONNECT example.com:443 HTTP/1.1\r\nProxy-Authorization: Basic dXNlcjpwYXNz!!\r\n\r\n";
    assert_eq!(answer(req).0, Action::Reply(Response::AuthRequired));
}

#[test]
fn invalid_utf8_credentials_are_refused() {
    // "/3VzZXI6cGFzcw==" decodes to 0xff followed by "user:pass".
    let c = ProxyCredentials::new("\u{ff}user".to_string(), "pass".to_string());
    let req = b"CONNECT example.com:443 HTTP/1.1\r\nProxy-Authorization: Basic /3VzZXI6cGFzcw==\r\n\r\n";
    assert!(matches!(evaluate(req, &c), Verdict::AuthRequired));
    assert!(!c.matches_decoded(b"\xffuser:pass"));
}

#[test]
fn first_colon_splits_credentials() {
    let c = ProxyCredentials::new("user".to_string(), "pa:ss".to_string());
    assert!(c.matches_decoded(b"user:pa:ss"));
    assert!(!c.matches_decoded(b"user:pa"));
    assert!(!c.matches_decoded(b"userpa:ss"));
    assert!(!c.matches_decoded(b"user"));
    let d = creds();
    assert!(d.matches_decoded(b"user:pass"));
    assert!(!d.matches_decoded(b"user:pass:"));
    assert!(!d.matches_decoded(b""));
}

#[test]
fn base64_is_decoded_before_matching() {
    let c = creds();
    assert!(c.authenticates(b"CONNECT a:1 HTTP/1.1\r\nProxy-Authorization: Basic dXNlcjpwYXNz\r\n\r\n"));
    assert!(!c.authenticates(b"CONNECT a:1 HTTP/1.1\r\nProxy-Authorization: Basic user:pass\r\n\r\n"));
}

#[test]
fn request_line_is_checked_before_credentials() {
    for req in [
        "GET example.com:443 HTTP/1.1\r\n\r\n",
        "GET example.com:443 HTTP/1.1\r\nProxy-Authorization: Basic dXNlcjp3cm9uZw==\r\n\r\n",
        "CONNECT example.com HTTP/1.1\r\n\r\n",
    ] {
        assert_eq!(answer(req), (Action::Reply(Response::BadRequest), Phase::Closed), "{}", req);
    }
}

#[test]
fn malformed_lines_are_bad_requests() {
    let auth = "\r\nProxy-Authorization: Basic dXNlcjpwYXNz\r\n\r\n";
    for line in [
        "CONNECT example.com HTTP/1.1",
        "CONNECT example.com:443",
        "CONNECT example.com:443 HTTP/1.1 extra",
        "CONNECT a:b:c HTTP/1.1",
        "CONNECT :443 HTTP/1.1",
        "connect example.com:443 HTTP/1.1",
        "",
    ] {
        let req = format!("{}{}", line, auth);
        assert_eq!(answer(&req).0, Action::Reply(Response::BadRequest), "{}", line);
    }
}

#[test]
fn extra_whitespace_and_empty_port_are_accepted() {
    let t = parse_connect_line(b"  CONNECT \t host:  HTTP/2 ").unwrap();
    assert_eq!(t.host, b"host".to_vec());
    assert_eq!(t.port, b"".to_vec());
}

#[test]
fn request_read_in_chunks() {
    let c = creds();
    let mut s = open_session(&c);
    assert_eq!(s.handle(&c, Event::Received(b"CONNECT example.com:443 HTTP/1.1\r\n".to_vec())), Action::ReadMore);
    assert_eq!(s.handle(&c, Event::Received(b"Proxy-Authorization: Basic dXNlcjpwYXNz\r\n\r".to_vec())), Action::ReadMore);
    assert_eq!(s.phase(), Phase::AwaitingRequest);
    assert_eq!(s.handle(&c, Event::Received(b"\n".to_vec())), Action::Dial);
}

#[test]
fn end_of_stream_closes_silently() {
    let c = creds();
    let mut s = open_session(&c);
    assert_eq!(s.handle(&c, Event::Received(b"CONNECT".to_vec())), Action::ReadMore);
    assert_eq!(s.handle(&c, Event::Received(Vec::new())), Action::Close);
    assert_eq!(s.phase(), Phase::Closed);
    assert_eq!(s.handle(&c, Event::Received(b"x".to_vec())), Action::Close);
}

#[test]
fn failures_close_silently() {
    let c = creds();
    let mut s = Session::new();
    assert_eq!(s.handle(&c, Event::HandshakeFailed), Action::Close);
    assert_eq!(s.phase(), Phase::Closed);
    let mut s = open_session(&c);
    assert_eq!(s.handle(&c, Event::ClientFailed), Action::Close);
    assert_eq!(s.phase(), Phase::Closed);
}

#[test]
fn fresh_sessions_answer_alike() {
    let c = creds();
    let req = b"CONNECT example.com:443 HTTP/1.1\r\nProxy-Authorization: Basic dXNlcjp3cm9uZw==\r\n\r\n";
    let mut answers = Vec::new();
    for _ in 0..3 {
        let mut s = open_session(&c);
        answers.push(s.handle(&c, Event::Received(req.to_vec())));
    }
    assert!(answers.iter().all(|a| *a == Action::Reply(Response::AuthRequired)));
}

#[test]
fn completion_needs_the_blank_line() {
    assert!(request_complete(b"\r\n\r\n"));
    assert!(request_complete(b"CONNECT a:1 HTTP/1.1\r\n\r\n"));
    assert!(!request_complete(b"CONNECT a:1 HTTP/1.1\r\n"));
    assert!(!request_complete(b"\n\n"));
    assert!(!request_complete(b""));
}

#[test]
fn lines_split_at_line_feeds() {
    assert_eq!(read_first_line(b"first\r\nsecond\r\n\r\n"), b"first".to_vec());
    assert_eq!(read_first_line(b"first\nsecond"), b"first".to_vec());
    assert_eq!(read_first_line(b"only"), b"only".to_vec());
    assert_eq!(find_line(b"a\r\nxy: 1\r\nxy: 2\r\n", b"xy:"), Some(b"xy: 1".to_vec()));
    assert_eq!(find_line(b"a\r\nb\r\n", b"xy:"), None);
}

#[test]
fn tokens_are_whitespace_runs() {
    assert_eq!(
        split_tokens(b" a\tbc  d "),
        vec![b"a".to_vec(), b"bc".to_vec(), b"d".to_vec()]
    );
    assert!(split_tokens(b"   ").is_empty());
}

#[test]
fn unicode_whitespace_separates_tokens() {
    let t = parse_connect_line("CONNECT\u{a0}a:1\u{3000}HTTP/1.1".as_bytes()).unwrap();
    assert_eq!(t.host, b"a".to_vec());
    assert_eq!(t.port, b"1".to_vec());
    assert_eq!(
        split_tokens("x\u{85}y\u{1680}z\u{2000}w\u{200a}v\u{2028}u\u{2029}t\u{202f}s\u{205f}r".as_bytes()).len(),
        9
    );
}

#[test]
fn other_bytes_do_not_separate_tokens() {
    assert_eq!(split_tokens("h\u{e9}t\u{200b}e".as_bytes()), vec!["h\u{e9}t\u{200b}e".as_bytes().to_vec()]);
    assert_eq!(split_tokens(b"a\xa0b\xc2"), vec![b"a\xa0b\xc2".to_vec()]);
}

#[test]
fn chunked_request_gets_the_same_reply() {
    let c = creds();
    let req = b"CONNECT example.com:443 HTTP/1.1\r\nProxy-Authorization: Basic dXNlcjp3cm9uZw==\r\n\r\n";
    let mut whole = open_session(&c);
    let one = whole.handle(&c, Event::Received(req.to_vec()));
    let mut split = open_session(&c);
    let mut last = Action::ReadMore;
    for part in req.chunks(7) {
        assert_eq!(last, Action::ReadMore);
        last = split.handle(&c, Event::Received(part.to_vec()));
    }
    assert_eq!(one, Action::Reply(Response::AuthRequired));
    assert_eq!(last, one);
    assert_eq!(split.phase(), whole.phase());
}
