//! The texts that the server sends: the answer to a custom handshake, the
//! answer that upgrades a connection, the head of a download stream, and the
//! answers to uploads.
use vstd::prelude::*;
use vstd::string::*;

use crate::number::decimal;
use crate::text::{contains, lemma_contains_middle};

verus! {

/// The text by which a client opens the custom handshake.
pub open spec fn client_hello() -> Seq<char> {
    "DTUNNEL/1.1 CLIENT_HELLO"@
}

/// The answer to the custom handshake.
pub open spec fn hello_reply_text() -> Seq<char> {
    "DTUNNEL/1.1 200 OK\r\n\r\n"@
}

/// How long a connection that is kept open waits for the next request, in
/// seconds.
pub const KEEP_ALIVE_TIMEOUT_S: u64 = 30;

/// The header fields that keep a connection open.
pub open spec fn keep_alive_fields() -> Seq<char> {
    "Connection: keep-alive\r\nKeep-Alive: timeout=30, max=100\r\n"@
}

/// The answer that turns an HTTP connection into a tunnel: two status lines in a
/// row, both with the configured status text.
pub open spec fn upgrade_text(status: Seq<char>) -> Seq<char> {
    "HTTP/1.1 101 ("@ + status + ")\r\n"@ + keep_alive_fields() + "\r\n"@ + "HTTP/1.1 200 ("@
        + status + ")\r\n"@ + keep_alive_fields() + "\r\n"@
}

/// The head of the download stream of session `sid`.
pub open spec fn stream_head_text(sid: Seq<char>, status: Seq<char>) -> Seq<char> {
    "HTTP/1.1 200 OK\r\n"@ + "Content-Type: application/octet-stream\r\n"@
        + "Transfer-Encoding: chunked\r\n"@ + keep_alive_fields()
        + "Cache-Control: no-store, no-cache, must-revalidate, max-age=0\r\n"@
        + "Pragma: no-cache\r\n"@ + "Expires: 0\r\n"@ + "X-Session-ID: "@ + sid + "\r\n"@
        + "X-Status: "@ + status + "\r\n"@ + "\r\n"@
}

/// How an upload is answered.
#[derive(Clone, Copy, PartialEq, Eq, Structural, Debug)]
pub enum UploadStatus {
    /// The body was handed on, or there is no such session.
    Accepted,
    /// The path names no session.
    NotFound,
    /// The body did not arrive, or could not be handed on, in time.
    RequestTimeout,
    /// The body could not be read.
    ServerError,
    /// The session no longer takes data.
    Unavailable,
}

/// The code and the reason of an upload's answer.
pub open spec fn upload_reason(status: UploadStatus) -> Seq<char> {
    match status {
        UploadStatus::Accepted => "200 OK"@,
        UploadStatus::NotFound => "404 Not Found"@,
        UploadStatus::RequestTimeout => "408 Request Timeout"@,
        UploadStatus::ServerError => "500 Internal Server Error"@,
        UploadStatus::Unavailable => "503 Service Unavailable"@,
    }
}

/// The answer to an upload. It never has a body; it keeps the connection open
/// only where the upload was accepted.
pub open spec fn upload_text(status: UploadStatus) -> Seq<char> {
    "HTTP/1.1 "@ + upload_reason(status) + "\r\n"@ + "Content-Length: 0\r\n"@ + (if status
        == UploadStatus::Accepted {
        keep_alive_fields()
    } else {
        "Connection: close\r\n"@
    }) + "\r\n"@
}

/// The answer to the custom handshake.
pub fn hello_reply() -> (r: String)
    ensures
        r@ == hello_reply_text(),
{
    String::from_str("DTUNNEL/1.1 200 OK\r\n\r\n")
}

/// The answer that turns an HTTP connection into a tunnel.
pub fn upgrade_reply(status: &str) -> (r: String)
    ensures
        r@ == upgrade_text(status@),
{
    let mut s: String = String::from_str("HTTP/1.1 101 (");
    s.append(status);
    s.append(")\r\n");
    s.append("Connection: keep-alive\r\nKeep-Alive: timeout=30, max=100\r\n");
    s.append("\r\n");
    s.append("HTTP/1.1 200 (");
    s.append(status);
    s.append(")\r\n");
    s.append("Connection: keep-alive\r\nKeep-Alive: timeout=30, max=100\r\n");
    s.append("\r\n");
    s
}

/// The head of the download stream of session `sid`.
pub fn stream_head(sid: &str, status: &str) -> (r: String)
    ensures
        r@ == stream_head_text(sid@, status@),
{
    let mut s: String = String::from_str("HTTP/1.1 200 OK\r\n");
    s.append("Content-Type: application/octet-stream\r\n");
    s.append("Transfer-Encoding: chunked\r\n");
    s.append("Connection: keep-alive\r\nKeep-Alive: timeout=30, max=100\r\n");
    s.append("Cache-Control: no-store, no-cache, must-revalidate, max-age=0\r\n");
    s.append("Pragma: no-cache\r\n");
    s.append("Expires: 0\r\n");
    s.append("X-Session-ID: ");
    s.append(sid);
    s.append("\r\n");
    s.append("X-Status: ");
    s.append(status);
    s.append("\r\n");
    s.append("\r\n");
    s
}

/// The answer to an upload.
pub fn upload_reply(status: UploadStatus) -> (r: String)
    ensures
        r@ == upload_text(status),
{
    let mut s: String = String::from_str("HTTP/1.1 ");
    s.append(
        match status {
            UploadStatus::Accepted => "200 OK",
            UploadStatus::NotFound => "404 Not Found",
            UploadStatus::RequestTimeout => "408 Request Timeout",
            UploadStatus::ServerError => "500 Internal Server Error",
            UploadStatus::Unavailable => "503 Service Unavailable",
        },
    );
    s.append("\r\n");
    s.append("Content-Length: 0\r\n");
    match status {
        UploadStatus::Accepted => s.append(
            "Connection: keep-alive\r\nKeep-Alive: timeout=30, max=100\r\n",
        ),
        _ => s.append("Connection: close\r\n"),
    }
    s.append("\r\n");
    s
}

// ---------------------------------------------------------------------------
// Laws
// ---------------------------------------------------------------------------
/// What stands in a text still stands in it after more is appended.
proof fn lemma_contains_more(s: Seq<char>, p: Seq<char>, more: Seq<char>)
    requires
        contains(s, p),
    ensures
        contains(s + more, p),
{
    let i = choose|i: int| crate::text::occurs_at(s, p, i);
    assert((s + more).subrange(i, i + p.len()) =~= s.subrange(i, i + p.len()));
    assert(crate::text::occurs_at(s + more, p, i));
}

/// What was just appended to a text stands in it.
proof fn lemma_contains_last(s: Seq<char>, p: Seq<char>)
    ensures
        contains(s + p, p),
{
    lemma_contains_middle(s, p, Seq::empty());
    assert(s + p + Seq::<char>::empty() =~= s + p);
}

/// The head of a download stream announces a chunked body, keeps the connection
/// open, forbids every cache on the way to store it, and names its session.
pub proof fn law_stream_head(sid: Seq<char>, status: Seq<char>)
    ensures
        contains(stream_head_text(sid, status), "Transfer-Encoding: chunked\r\n"@),
        contains(stream_head_text(sid, status), keep_alive_fields()),
        contains(
            stream_head_text(sid, status),
            "Cache-Control: no-store, no-cache, must-revalidate, max-age=0\r\n"@,
        ),
        contains(stream_head_text(sid, status), "Pragma: no-cache\r\n"@),
        contains(stream_head_text(sid, status), "Expires: 0\r\n"@),
        contains(stream_head_text(sid, status), "X-Session-ID: "@ + sid + "\r\n"@),
        contains(stream_head_text(sid, status), "X-Status: "@ + status + "\r\n"@),
{
    let a = "HTTP/1.1 200 OK\r\n"@ + "Content-Type: application/octet-stream\r\n"@;
    let chunked = "Transfer-Encoding: chunked\r\n"@;
    let keep = keep_alive_fields();
    let cache = "Cache-Control: no-store, no-cache, must-revalidate, max-age=0\r\n"@;
    let pragma = "Pragma: no-cache\r\n"@;
    let expires = "Expires: 0\r\n"@;
    let id = "X-Session-ID: "@ + sid + "\r\n"@;
    let st = "X-Status: "@ + status + "\r\n"@;
    let end = "\r\n"@;
    let all = a + chunked + keep + cache + pragma + expires + id + st + end;
    assert(all =~= stream_head_text(sid, status));
    assert(all =~= a + chunked + (keep + cache + pragma + expires + id + st + end));
    lemma_contains_middle(a, chunked, keep + cache + pragma + expires + id + st + end);
    let b = a + chunked;
    assert(all =~= b + keep + (cache + pragma + expires + id + st + end));
    lemma_contains_middle(b, keep, cache + pragma + expires + id + st + end);
    let c = b + keep;
    assert(all =~= c + cache + (pragma + expires + id + st + end));
    lemma_contains_middle(c, cache, pragma + expires + id + st + end);
    let d = c + cache;
    assert(all =~= d + pragma + (expires + id + st + end));
    lemma_contains_middle(d, pragma, expires + id + st + end);
    let e = d + pragma;
    assert(all =~= e + expires + (id + st + end));
    lemma_contains_middle(e, expires, id + st + end);
    let f = e + expires;
    assert(all =~= f + id + (st + end));
    lemma_contains_middle(f, id, st + end);
    let g = f + id;
    lemma_contains_middle(g, st, end);
}

/// The header fields that keep a connection open announce how long it waits for
/// the next request.
pub proof fn law_keep_alive_announced()
    ensures
        contains(keep_alive_fields(), "timeout="@ + decimal(KEEP_ALIVE_TIMEOUT_S as nat) + ","@),
{
    reveal_strlit("Connection: keep-alive\r\nKeep-Alive: timeout=30, max=100\r\n");
    reveal_strlit("timeout=");
    reveal_strlit(",");
    reveal_with_fuel(decimal, 2);
    let p = "timeout="@ + decimal(30) + ","@;
    assert(decimal(30) =~= seq!['3', '0']);
    assert(keep_alive_fields().subrange(36, 47) =~= p);
    assert(crate::text::occurs_at(keep_alive_fields(), p, 36));
}

/// The answer that upgrades a connection keeps it open.
pub proof fn law_upgrade_keeps_alive(status: Seq<char>)
    ensures
        contains(upgrade_text(status), keep_alive_fields()),
{
    let a = "HTTP/1.1 101 ("@ + status + ")\r\n"@ + keep_alive_fields() + "\r\n"@
        + "HTTP/1.1 200 ("@ + status + ")\r\n"@;
    lemma_contains_middle(a, keep_alive_fields(), "\r\n"@);
}

/// Every answer to an upload has an empty body. One that refuses the upload
/// closes the connection; the one that accepts it keeps the connection open.
pub proof fn law_upload_reply(status: UploadStatus)
    ensures
        contains(upload_text(status), "Content-Length: 0\r\n"@),
        status == UploadStatus::Accepted ==> contains(upload_text(status), keep_alive_fields()),
        status != UploadStatus::Accepted ==> contains(upload_text(status), "Connection: close\r\n"@),
{
    let a = "HTTP/1.1 "@ + upload_reason(status) + "\r\n"@;
    let length = "Content-Length: 0\r\n"@;
    let connection = if status == UploadStatus::Accepted {
        keep_alive_fields()
    } else {
        "Connection: close\r\n"@
    };
    lemma_contains_last(a, length);
    lemma_contains_more(a + length, length, connection);
    lemma_contains_more(a + length + connection, length, "\r\n"@);
    lemma_contains_middle(a + length, connection, "\r\n"@);
}

/// The head of a download stream, whatever the session and the status text: they
/// stand in it as they are, between texts that are always the same.
pub proof fn law_head_text(sid: Seq<char>, status: Seq<char>)
    ensures
        stream_head_text(sid, status) == "HTTP/1.1 200 OK\r\n"@ + (
        "Content-Type: application/octet-stream\r\n"@ + "Transfer-Encoding: chunked\r\n"@
            + "Connection: keep-alive\r\nKeep-Alive: timeout=30, max=100\r\n"@
            + "Cache-Control: no-store, no-cache, must-revalidate, max-age=0\r\n"@
            + "Pragma: no-cache\r\n"@ + "Expires: 0\r\n"@) + ("X-Session-ID: "@ + sid + "\r\n"@
            + "X-Status: "@ + status + "\r\n"@ + "\r\n"@),
{
    let a = "Content-Type: application/octet-stream\r\n"@ + "Transfer-Encoding: chunked\r\n"@
        + "Connection: keep-alive\r\nKeep-Alive: timeout=30, max=100\r\n"@
        + "Cache-Control: no-store, no-cache, must-revalidate, max-age=0\r\n"@
        + "Pragma: no-cache\r\n"@ + "Expires: 0\r\n"@;
    let b = "X-Session-ID: "@ + sid + "\r\n"@ + "X-Status: "@ + status + "\r\n"@ + "\r\n"@;
    assert(stream_head_text(sid, status) =~= "HTTP/1.1 200 OK\r\n"@ + a + b);
}

/// The answer that turns a connection into a tunnel, whatever the status text: it
/// is one answer with the code 101 and one with the code 200, which carry the
/// status text as it is and keep the connection open.
pub proof fn law_upgrade_is_two_answers(status: Seq<char>)
    ensures
        ({
            let tail = status + ")\r\n"@
                + "Connection: keep-alive\r\nKeep-Alive: timeout=30, max=100\r\n"@ + "\r\n"@;
            upgrade_text(status) == ("HTTP/1.1 101 ("@ + tail) + ("HTTP/1.1 200 ("@ + tail)
        }),
{
    let tail = status + ")\r\n"@
        + "Connection: keep-alive\r\nKeep-Alive: timeout=30, max=100\r\n"@ + "\r\n"@;
    assert(upgrade_text(status) =~= ("HTTP/1.1 101 ("@ + tail) + ("HTTP/1.1 200 ("@ + tail));
}

} // verus!
