use xhttp_tunnel::error::TunnelError;
use xhttp_tunnel::reply::{
    hello_reply, stream_head, upgrade_reply, upload_reply, UploadStatus, KEEP_ALIVE_TIMEOUT_S,
};

#[test]
fn handshake_answer() {
    assert_eq!(hello_reply(), "DTUNNEL/1.1 200 OK\r\n\r\n");
}

#[test]
fn upgrade_answer() {
    assert_eq!(
        upgrade_reply("@Mpro"),
        "HTTP/1.1 101 (@Mpro)\r\nConnection: keep-alive\r\nKeep-Alive: timeout=30, max=100\r\n\r\n\
         HTTP/1.1 200 (@Mpro)\r\nConnection: keep-alive\r\nKeep-Alive: timeout=30, max=100\r\n\r\n"
    );
}

#[test]
fn head_of_a_stream() {
    assert_eq!(
        stream_head("abc", "ok"),
        "HTTP/1.1 200 OK\r\n\
         Content-Type: application/octet-stream\r\n\
         Transfer-Encoding: chunked\r\n\
         Connection: keep-alive\r\n\
         Keep-Alive: timeout=30, max=100\r\n\
         Cache-Control: no-store, no-cache, must-revalidate, max-age=0\r\n\
         Pragma: no-cache\r\n\
         Expires: 0\r\n\
         X-Session-ID: abc\r\n\
         X-Status: ok\r\n\r\n"
    );
}

#[test]
fn answers_to_uploads() {
    assert_eq!(
        upload_reply(UploadStatus::Accepted),
        "HTTP/1.1 200 OK\r\nContent-Length: 0\r\nConnection: keep-alive\r\nKeep-Alive: timeout=30, max=100\r\n\r\n"
    );
    assert_eq!(
        upload_reply(UploadStatus::NotFound),
        "HTTP/1.1 404 Not Found\r\nContent-Length: 0\r\nConnection: close\r\n\r\n"
    );
    assert_eq!(
        upload_reply(UploadStatus::RequestTimeout),
        "HTTP/1.1 408 Request Timeout\r\nContent-Length: 0\r\nConnection: close\r\n\r\n"
    );
    assert_eq!(
        upload_reply(UploadStatus::ServerError),
        "HTTP/1.1 500 Internal Server Error\r\nContent-Length: 0\r\nConnection: close\r\n\r\n"
    );
    assert_eq!(
        upload_reply(UploadStatus::Unavailable),
        "HTTP/1.1 503 Service Unavailable\r\nContent-Length: 0\r\nConnection: close\r\n\r\n"
    );
}

#[test]
fn texts_of_errors() {
    assert_eq!(TunnelError::EmptySessionId.message(), "Session ID vazio");
    assert_eq!(TunnelError::ConnectTimeout.message(), "SSH Connect Timeout");
    assert_eq!(TunnelError::ConnectFailed.message(), "SSH connect failed");
}

#[test]
fn wait_for_the_next_request_is_announced() {
    let announced = format!("Keep-Alive: timeout={}, max=100\r\n", KEEP_ALIVE_TIMEOUT_S);
    assert!(upload_reply(UploadStatus::Accepted).contains(&announced));
    assert!(upgrade_reply("x").contains(&announced));
}
