use xhttp_tunnel::reply::upgrade_reply;
use xhttp_tunnel::route::{
    classify, handle_next, handle_plain, handle_tls, handling, open_connection, opening,
    route_connection, route_text, Handling, Opening, Request, Route, PLAIN_BUFFER, TLS_BUFFER,
};

fn relay(reply: Option<String>, first: Option<Vec<u8>>) -> Handling<String, Vec<u8>> {
    Handling::Relay { reply, first }
}

#[test]
fn routes_by_first_bytes() {
    assert_eq!(route_connection(None), Route::Ssh);
    assert_eq!(route_connection(Some(&b""[..])), Route::Ssh);
    assert_eq!(route_connection(Some(&b"DTUNNEL/1.1 CLIENT_HELLO\r\n"[..])), Route::Handshake);
    assert_eq!(route_connection(Some(&b"\x16\x03\x01"[..])), Route::Tls);
    assert_eq!(route_connection(Some(&b"GET / HTTP/1.1"[..])), Route::Http);
    assert_eq!(route_connection(Some(&b"A"[..])), Route::Http);
    assert_eq!(route_connection(Some(&b"Z"[..])), Route::Http);
    assert_eq!(route_connection(Some(&b"@"[..])), Route::Ssh);
    assert_eq!(route_connection(Some(&b"["[..])), Route::Ssh);
    assert_eq!(route_connection(Some(&b"get /"[..])), Route::Ssh);
    assert_eq!(route_connection(Some(&b"\x00"[..])), Route::Ssh);
}

#[test]
fn handshake_comes_before_all_else() {
    assert_eq!(route_text(0x16, "xDTUNNEL/1.1 CLIENT_HELLO"), Route::Handshake);
    assert_eq!(route_connection(Some(&b"\x16\xff\xffDTUNNEL/1.1 CLIENT_HELLO"[..])), Route::Handshake);
    assert_eq!(route_text(0x44, "DTUNNEL/1.1 CLIENT_HELL"), Route::Http);
}

#[test]
fn openings() {
    let hello = b"DTUNNEL/1.1 CLIENT_HELLO\r\n\r\n";
    assert_eq!(
        open_connection(Some(&hello[..])),
        Opening::Relay { discard: 28, reply: Some("DTUNNEL/1.1 200 OK\r\n\r\n".to_string()) }
    );
    assert_eq!(open_connection(None), Opening::Relay { discard: 0, reply: None });
    assert_eq!(open_connection(Some(&b"\x01"[..])), Opening::Relay { discard: 0, reply: None });
    assert_eq!(open_connection(Some(&b"\x16"[..])), Opening::Tls);
    assert_eq!(opening(Route::Http, 5), Opening::Http);
}

#[test]
fn requests_by_text() {
    assert_eq!(classify("GET /ssh/a HTTP/1.1\r\n"), Request::Download("/ssh/a".to_string()));
    assert_eq!(classify("POST /xhttp/a/1 HTTP/1.1\r\n"), Request::Upload("/xhttp/a/1".to_string()));
    assert_eq!(classify("GET /split/a"), Request::Download("/split/a".to_string()));
    assert_eq!(
        classify("GET /a HTTP/1.1\r\nx-session-id: a\r\n"),
        Request::Download("/a".to_string())
    );
    assert_eq!(classify("PUT /ssh/a HTTP/1.1\r\n"), Request::Upgrade);
    assert_eq!(classify("GET / HTTP/1.1\r\nX-Session-ID: a\r\n"), Request::Upgrade);
    assert_eq!(classify("GET / HTTP/2"), Request::Other);
    assert_eq!(classify("GET\r\n/ssh/"), Request::Other);
    assert_eq!(classify(""), Request::Other);
}

#[test]
fn plain_connections() {
    assert_eq!(handle_plain(b"GET /ssh/a HTTP/1.1\r\n", "s"), Handling::Download("/ssh/a".to_string()));
    assert_eq!(handle_plain(b"POST /ssh/a HTTP/1.1\r\n", "s"), Handling::Upload("/ssh/a".to_string()));
    assert_eq!(handle_plain(b"CONNECT x HTTP/1.0\r\n", "s"), relay(Some(upgrade_reply("s")), None));
    assert_eq!(handle_plain(b"PING", "s"), relay(None, Some(b"PING".to_vec())));
    assert_eq!(handle_plain(b"", "s"), relay(None, None));
    assert_eq!(handling(b"ab", "HTTP/1.", "s"), relay(Some(upgrade_reply("s")), None));
    assert_eq!(handling(b"ab", "ab", "s"), relay(None, Some(b"ab".to_vec())));
}

#[test]
fn tls_connections() {
    assert_eq!(handle_tls(None, "s"), relay(None, None));
    assert_eq!(handle_tls(Some(&b""[..]), "s"), relay(None, None));
    assert_eq!(
        handle_tls(Some(&b"GET /ssh/a HTTP/1.1\r\n"[..]), "s"),
        Handling::Download("/ssh/a".to_string())
    );
    assert_eq!(
        handle_tls(Some(&b"POST /ssh/\xff HTTP/1.1\r\n"[..]), "s"),
        Handling::Upload("/ssh/\u{fffd}".to_string())
    );
    assert_eq!(
        handle_tls(Some(&b"OPTIONS * HTTP/1.1\r\n"[..]), "s"),
        relay(Some(upgrade_reply("s")), None)
    );
    assert_eq!(handle_tls(Some(&b"\x00\xff"[..]), "s"), relay(None, Some(vec![0, 0xff])));
}

#[test]
fn transports_agree_on_requests() {
    for data in [
        &b"GET /ssh/a HTTP/1.1\r\n"[..],
        &b"POST /split/a"[..],
        &b"HEAD / HTTP/1.1"[..],
        &b"SSH-2.0-x\r\n"[..],
        &b""[..],
    ] {
        assert_eq!(handle_tls(Some(data), "s"), handle_plain(data, "s"));
    }
}

#[test]
fn body_of_a_request_may_be_any_bytes() {
    let data = b"POST /ssh/a/0 HTTP/1.1\r\nContent-Length: 3\r\n\r\n\xff\x00\xc3";
    assert_eq!(handle_plain(data, "s"), Handling::Upload("/ssh/a/0".to_string()));
    assert_eq!(handle_tls(Some(&data[..]), "s"), Handling::Upload("/ssh/a/0".to_string()));
    let text = "GET /split/\u{e9}/7 HTTP/1.1\r\n";
    assert_eq!(
        handle_plain(text.as_bytes(), "s"),
        Handling::Download("/split/\u{e9}/7".to_string())
    );
}

#[test]
fn ssh_client_reaches_the_ssh_server_whole() {
    let line = b"SSH-2.0-x\r\n";
    assert_eq!(open_connection(Some(&line[..])), Opening::Http);
    assert_eq!(handle_plain(line, "s"), relay(None, Some(line.to_vec())));
    let more = b"SSH-2.0-x /ssh/\r\n\x00\xff\xfe";
    assert_eq!(handle_plain(more, "s"), relay(None, Some(more.to_vec())));
}

#[test]
fn kept_connection_serves_the_next_request() {
    assert_eq!(
        handle_next(Some(&b"POST /ssh/s1/1 HTTP/1.1\r\n\r\n\xff"[..]), "s"),
        Some(Handling::Upload("/ssh/s1/1".to_string()))
    );
    assert_eq!(
        handle_next(Some(&b"GET /ssh/s1 HTTP/1.1\r\n"[..]), "s"),
        Some(Handling::Download("/ssh/s1".to_string()))
    );
    assert_eq!(handle_next(Some(&b""[..]), "s"), None);
    assert_eq!(handle_next(None, "s"), None);
}

#[test]
fn requests_are_read_in_the_same_amount_with_and_without_tls() {
    assert_eq!(PLAIN_BUFFER, 16384);
    assert_eq!(TLS_BUFFER, 16384);
}
