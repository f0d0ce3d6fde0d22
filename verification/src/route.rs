//! What a connection is, by its first bytes, and what a request asks for.
use vstd::prelude::*;
use vstd::slice::slice_to_vec;
use vstd::string::*;
use vstd::utf8::{decode_utf8, encode_utf8};

use crate::number::{decimal, is_digit, lemma_decimal};
use crate::reply::{
    client_hello, hello_reply, hello_reply_text, upgrade_reply, upgrade_text, UploadStatus,
};
use crate::request::{
    is_tunnel_prefix, is_word, lacks, law_first_two_words, law_one_word_is_no_request, law_request_line,
    law_tunnel_path, lemma_method_start, method_and_target, parse_http_request, path_info,
};
use crate::text::{
    chars_of, contains, contains_text, holds, is_blank, is_white, law_contains, lemma_contains_middle,
    same_text,
};
use crate::upload::{after_status, AfterAnswer};
use crate::utf8::{decode_lossy, keeps_valid, law_text_reads_back, utf8_lossy};

verus! {

// ---------------------------------------------------------------------------
// Connections
// ---------------------------------------------------------------------------
/// How many bytes of a connection are looked at.
pub const PEEK_LENGTH: usize = 64;

/// How long the first bytes of a connection may take, in milliseconds.
pub const PEEK_TIMEOUT_MS: u64 = 500;

/// How much of a request is read at once with TLS.
pub const TLS_BUFFER: usize = 16384;

/// How long a request may take with TLS, in milliseconds.
pub const TLS_READ_TIMEOUT_MS: u64 = 3000;

/// How much of a request is read at once without TLS.
pub const PLAIN_BUFFER: usize = 16384;

/// How a connection is served.
#[derive(Clone, Copy, PartialEq, Eq, Structural, Debug)]
pub enum Route {
    /// It is passed on to the SSH server as it is.
    Ssh,
    /// The custom handshake is answered, and then it is passed on.
    Handshake,
    /// TLS is set up first.
    Tls,
    /// It carries an HTTP request.
    Http,
}

/// The route of a connection whose first byte is `head`, and whose first bytes
/// read as `text`. The handshake comes before all else.
pub open spec fn text_route(head: u8, text: Seq<char>) -> Route {
    if contains(text, client_hello()) {
        Route::Handshake
    } else if head == 0x16 {
        Route::Tls
    } else if 0x41 <= head <= 0x5a {
        Route::Http
    } else {
        Route::Ssh
    }
}

/// The route of a connection, by the bytes that are waiting on it.
pub open spec fn bytes_route(peeked: Seq<u8>) -> Route {
    if peeked.len() == 0 {
        Route::Ssh
    } else {
        text_route(peeked[0], utf8_lossy(peeked))
    }
}

/// Decides the route of a connection whose first byte is `head`, and whose first
/// bytes read as `text`.
pub fn route_text(head: u8, text: &str) -> (r: Route)
    ensures
        r == text_route(head, text@),
{
    let v: Vec<char> = chars_of(text);
    if contains_text(&v, "DTUNNEL/1.1 CLIENT_HELLO") {
        return Route::Handshake;
    }
    if head == 0x16 {
        return Route::Tls;
    }
    if head >= 0x41 && head <= 0x5a {
        return Route::Http;
    }
    Route::Ssh
}

/// Decides the route of a connection by the bytes that are waiting on it. `None`
/// stands for bytes that did not come, or not in time.
pub fn route_connection(peeked: Option<&[u8]>) -> (r: Route)
    ensures
        r == (match peeked {
            Some(bytes) => bytes_route(bytes@),
            None => Route::Ssh,
        }),
        peeked matches Some(bytes) ==> bytes@.len() > 0 ==> keeps_valid(
            bytes@,
            utf8_lossy(bytes@),
        ),
{
    match peeked {
        Some(bytes) => {
            if bytes.len() == 0 {
                return Route::Ssh;
            }
            let text: String = decode_lossy(bytes);
            route_text(bytes[0], text.as_str())
        },
        None => Route::Ssh,
    }
}

/// How to begin with a connection. `T` is a text.
#[derive(Debug, PartialEq, Eq)]
pub enum Opening<T> {
    /// Pass it on to the SSH server: after reading and dropping its first
    /// `discard` bytes, and after the answer `reply` to the client.
    Relay { discard: usize, reply: Option<T> },
    /// Set up TLS on it.
    Tls,
    /// Read an HTTP request from it.
    Http,
}

impl View for Opening<String> {
    type V = Opening<Seq<char>>;

    open spec fn view(&self) -> Opening<Seq<char>> {
        match *self {
            Opening::Relay { discard, reply } => Opening::Relay {
                discard,
                reply: match reply {
                    Some(t) => Some(t@),
                    None => None,
                },
            },
            Opening::Tls => Opening::Tls,
            Opening::Http => Opening::Http,
        }
    }
}

/// How to begin with a connection on which `waiting` bytes were seen. The bytes
/// of the handshake are dropped, as many as were seen of them.
pub open spec fn opening_of(route: Route, waiting: usize) -> Opening<Seq<char>> {
    match route {
        Route::Ssh => Opening::Relay { discard: 0, reply: None },
        Route::Handshake => Opening::Relay { discard: waiting, reply: Some(hello_reply_text()) },
        Route::Tls => Opening::Tls,
        Route::Http => Opening::Http,
    }
}

/// Decides how to begin with a connection on which `waiting` bytes were seen.
pub fn opening(route: Route, waiting: usize) -> (r: Opening<String>)
    ensures
        r@ == opening_of(route, waiting),
{
    match route {
        Route::Ssh => Opening::Relay { discard: 0, reply: None },
        Route::Handshake => Opening::Relay { discard: waiting, reply: Some(hello_reply()) },
        Route::Tls => Opening::Tls,
        Route::Http => Opening::Http,
    }
}

/// Decides how to begin with a connection, by the bytes that are waiting on it.
/// `None` stands for bytes that did not come, or not in time.
pub fn open_connection(peeked: Option<&[u8]>) -> (r: Opening<String>)
    ensures
        r@ == (match peeked {
            Some(bytes) => opening_of(bytes_route(bytes@), bytes@.len() as usize),
            None => Opening::Relay { discard: 0, reply: None },
        }),
        peeked matches Some(bytes) ==> bytes@.len() > 0 ==> keeps_valid(
            bytes@,
            utf8_lossy(bytes@),
        ),
{
    match peeked {
        Some(bytes) => opening(route_connection(Some(bytes)), bytes.len()),
        None => Opening::Relay { discard: 0, reply: None },
    }
}

// ---------------------------------------------------------------------------
// Requests
// ---------------------------------------------------------------------------
/// What a request asks for. `T` is a text.
#[derive(Debug, PartialEq, Eq)]
pub enum Request<T> {
    /// A download stream, for this path.
    Download(T),
    /// An upload, for this path.
    Upload(T),
    /// A tunnel over an HTTP connection.
    Upgrade,
    /// Nothing that is known here.
    Other,
}

impl View for Request<String> {
    type V = Request<Seq<char>>;

    open spec fn view(&self) -> Request<Seq<char>> {
        match *self {
            Request::Download(path) => Request::Download(path@),
            Request::Upload(path) => Request::Upload(path@),
            Request::Upgrade => Request::Upgrade,
            Request::Other => Request::Other,
        }
    }
}

/// The text bears a mark of the tunnel protocol.
pub open spec fn is_marked(text: Seq<char>) -> bool {
    contains(text, "x-session-id"@) || contains(text, "/ssh/"@) || contains(text, "/xhttp/"@)
        || contains(text, "/split/"@)
}

/// What a request asks for, by its text.
pub open spec fn request_of(text: Seq<char>) -> Request<Seq<char>> {
    match method_and_target(text) {
        Some((method, path)) if is_marked(text) && method == "GET"@ => Request::Download(path),
        Some((method, path)) if is_marked(text) && method == "POST"@ => Request::Upload(path),
        _ => if contains(text, "HTTP/1."@) {
            Request::Upgrade
        } else {
            Request::Other
        },
    }
}

/// Decides what a request asks for, by its text.
pub fn classify(text: &str) -> (r: Request<String>)
    ensures
        r@ == request_of(text@),
{
    let v: Vec<char> = chars_of(text);
    proof {
        reveal_strlit("GET");
        reveal_strlit("POST");
        assert("GET"@.len() != "POST"@.len());
    }
    if contains_text(&v, "x-session-id") || contains_text(&v, "/ssh/") || contains_text(
        &v,
        "/xhttp/",
    ) || contains_text(&v, "/split/") {
        if let Some((method, path)) = parse_http_request(text) {
            if same_text(method.as_str(), "GET") {
                return Request::Download(path);
            }
            if same_text(method.as_str(), "POST") {
                return Request::Upload(path);
            }
        }
    }
    if contains_text(&v, "HTTP/1.") {
        return Request::Upgrade;
    }
    Request::Other
}

/// How a request is served. `T` is a text, `D` a piece of data.
#[derive(Debug, PartialEq, Eq)]
pub enum Handling<T, D> {
    /// By the download stream of this path.
    Download(T),
    /// As an upload to this path.
    Upload(T),
    /// By passing the connection on to the SSH server: after the answer `reply`
    /// to the client, and after the data `first` to the SSH server.
    Relay { reply: Option<T>, first: Option<D> },
}

impl View for Handling<String, Vec<u8>> {
    type V = Handling<Seq<char>, Seq<u8>>;

    open spec fn view(&self) -> Handling<Seq<char>, Seq<u8>> {
        match *self {
            Handling::Download(path) => Handling::Download(path@),
            Handling::Upload(path) => Handling::Upload(path@),
            Handling::Relay { reply, first } => Handling::Relay {
                reply: match reply {
                    Some(t) => Some(t@),
                    None => None,
                },
                first: match first {
                    Some(d) => Some(d@),
                    None => None,
                },
            },
        }
    }
}

/// How the request `data`, which reads as `text`, is served. What was read goes
/// to the SSH server where it is no request that is known: it may be a client
/// that speaks SSH.
pub open spec fn handling_of(data: Seq<u8>, text: Seq<char>, status: Seq<char>) -> Handling<
    Seq<char>,
    Seq<u8>,
> {
    match request_of(text) {
        Request::Download(path) => Handling::Download(path),
        Request::Upload(path) => Handling::Upload(path),
        Request::Upgrade => Handling::Relay { reply: Some(upgrade_text(status)), first: None },
        Request::Other => Handling::Relay { reply: None, first: Some(data) },
    }
}

/// How a connection is served from which `data` was read, with TLS and without.
pub open spec fn bytes_handling(data: Seq<u8>, status: Seq<char>) -> Handling<Seq<char>, Seq<u8>> {
    if data.len() == 0 {
        Handling::Relay { reply: None, first: None }
    } else {
        handling_of(data, utf8_lossy(data), status)
    }
}

/// How a connection that was kept after an answer is served: by what is read
/// next. It is closed, which is `None`, where nothing comes.
pub open spec fn next_handling_of(data: Option<Seq<u8>>, status: Seq<char>) -> Option<
    Handling<Seq<char>, Seq<u8>>,
> {
    match data {
        Some(bytes) if bytes.len() > 0 => Some(bytes_handling(bytes, status)),
        _ => None,
    }
}

/// The view of an optional handling.
pub open spec fn opt_handling(r: Option<Handling<String, Vec<u8>>>) -> Option<
    Handling<Seq<char>, Seq<u8>>,
> {
    match r {
        Some(h) => Some(h@),
        None => None,
    }
}

/// The view of optional bytes.
pub open spec fn opt_bytes(data: Option<&[u8]>) -> Option<Seq<u8>> {
    match data {
        Some(bytes) => Some(bytes@),
        None => None,
    }
}

/// Decides how the request `data`, which reads as `text`, is served.
pub fn handling(data: &[u8], text: &str, status: &str) -> (r: Handling<String, Vec<u8>>)
    ensures
        r@ == handling_of(data@, text@, status@),
{
    match classify(text) {
        Request::Download(path) => Handling::Download(path),
        Request::Upload(path) => Handling::Upload(path),
        Request::Upgrade => Handling::Relay { reply: Some(upgrade_reply(status)), first: None },
        Request::Other => Handling::Relay { reply: None, first: Some(slice_to_vec(data)) },
    }
}

/// Decides how a connection without TLS is served, by the bytes read from it.
pub fn handle_plain(data: &[u8], status: &str) -> (r: Handling<String, Vec<u8>>)
    ensures
        r@ == bytes_handling(data@, status@),
        data@.len() > 0 ==> keeps_valid(data@, utf8_lossy(data@)),
{
    if data.len() == 0 {
        return Handling::Relay { reply: None, first: None };
    }
    let text: String = decode_lossy(data);
    handling(data, text.as_str(), status)
}

/// Decides how a connection with TLS is served, by the bytes read from it.
/// `None` stands for bytes that did not come, or not in time.
pub fn handle_tls(data: Option<&[u8]>, status: &str) -> (r: Handling<String, Vec<u8>>)
    ensures
        r@ == (match data {
            Some(bytes) => bytes_handling(bytes@, status@),
            None => Handling::Relay { reply: None, first: None },
        }),
        data matches Some(bytes) ==> bytes@.len() > 0 ==> keeps_valid(bytes@, utf8_lossy(bytes@)),
{
    match data {
        Some(bytes) => handle_plain(bytes, status),
        None => Handling::Relay { reply: None, first: None },
    }
}

/// Decides how a connection that was kept after an answer is served, by the bytes
/// read from it next: as on a new connection. `None` in `data` stands for bytes
/// that did not come, or not in time; the result is `None` where the connection
/// is closed.
pub fn handle_next(data: Option<&[u8]>, status: &str) -> (r: Option<Handling<String, Vec<u8>>>)
    ensures
        opt_handling(r) == next_handling_of(opt_bytes(data), status@),
        data matches Some(bytes) ==> bytes@.len() > 0 ==> keeps_valid(bytes@, utf8_lossy(bytes@)),
{
    match data {
        Some(bytes) => {
            if bytes.len() == 0 {
                return None;
            }
            Some(handle_plain(bytes, status))
        },
        None => None,
    }
}

// ---------------------------------------------------------------------------
// Laws
// ---------------------------------------------------------------------------
/// Bytes that are no request reach the SSH server as they came, and nothing is
/// sent to the client, with TLS and without.
pub proof fn law_unknown_bytes_pass(data: Seq<u8>, status: Seq<char>)
    requires
        data.len() > 0,
        request_of(utf8_lossy(data)) is Other,
    ensures
        bytes_handling(data, status) == (Handling::<Seq<char>, Seq<u8>>::Relay {
            reply: None,
            first: Some(data),
        }),
{
}

/// A client that speaks SSH reaches the SSH server, and none of its bytes is lost.
/// It starts with `SSH-`: because of the capital it is read as a request, but it
/// is none, and goes to the SSH server as it came. Behind that may stand any
/// bytes, but for the text of this server's handshake and the mark of HTTP.
pub proof fn law_ssh_client_passes(rest: Seq<u8>, data: Seq<u8>, status: Seq<char>)
    requires
        data == encode_utf8("SSH-"@) + rest,
        keeps_valid(data, utf8_lossy(data)),
        !contains(utf8_lossy(data), client_hello()),
        !contains(utf8_lossy(data), "HTTP/1."@),
    ensures
        bytes_route(data) == Route::Http,
        bytes_handling(data, status) == (Handling::<Seq<char>, Seq<u8>>::Relay {
            reply: None,
            first: Some(data),
        }),
{
    reveal_strlit("SSH-");
    reveal_strlit("GET");
    reveal_strlit("POST");
    let text = utf8_lossy(data);
    vstd::utf8::is_ascii_chars_encode_utf8("SSH-"@);
    assert(encode_utf8("SSH-"@)[0] == 'S' as u8);
    law_text_reads_back("SSH-"@, rest, text);
    assert(text[0] == 'S');
    lemma_method_start(text);
    assert("GET"@[0] != 'S' && "POST"@[0] != 'S');
}

/// The target that a client asks for to use session `sid`, with the sequence
/// number `number`.
pub open spec fn tunnel_target(prefix: Seq<char>, sid: Seq<char>, number: nat) -> Seq<char> {
    seq!['/'] + (prefix + seq!['/'] + (sid + seq!['/'] + decimal(number)))
}

proof fn lemma_tunnel_target(prefix: Seq<char>, sid: Seq<char>, number: nat)
    requires
        is_tunnel_prefix(prefix),
        forall|k: int| 0 <= k < sid.len() ==> !is_white(#[trigger] sid[k]),
    ensures
        is_word(tunnel_target(prefix, sid, number)),
        contains(tunnel_target(prefix, sid, number), seq!['/'] + prefix + seq!['/']),
        is_marked(tunnel_target(prefix, sid, number)),
{
    reveal_strlit("ssh");
    reveal_strlit("xhttp");
    reveal_strlit("split");
    reveal_strlit("/ssh/");
    reveal_strlit("/xhttp/");
    reveal_strlit("/split/");
    lemma_decimal(number);
    let t = tunnel_target(prefix, sid, number);
    let d = decimal(number);
    let p = prefix.len() as int;
    let s = sid.len() as int;
    assert forall|k: int| 0 <= k < t.len() implies !is_white(#[trigger] t[k]) by {
        if 1 <= k < p + 1 {
            assert(t[k] == prefix[k - 1]);
        } else if p + 2 <= k < p + 2 + s {
            assert(t[k] == sid[k - p - 2]);
        } else if p + 3 + s <= k {
            assert(t[k] == d[k - p - 3 - s]);
            assert(is_digit(d[k - p - 3 - s]));
        }
    }
    let mark = seq!['/'] + prefix + seq!['/'];
    let rest = sid + seq!['/'] + d;
    assert(t =~= Seq::<char>::empty() + mark + rest);
    lemma_contains_middle(Seq::empty(), mark, rest);
    if prefix == "ssh"@ {
        assert("/ssh/"@ =~= mark);
    } else if prefix == "xhttp"@ {
        assert("/xhttp/"@ =~= mark);
    } else {
        assert("/split/"@ =~= mark);
    }
}

proof fn lemma_contains_inside(a: Seq<char>, s: Seq<char>, b: Seq<char>, p: Seq<char>)
    requires
        contains(s, p),
    ensures
        contains(a + s + b, p),
{
    let i = choose|i: int| crate::text::occurs_at(s, p, i);
    let j = a.len() + i;
    assert((a + s + b).subrange(j, j + p.len()) =~= s.subrange(i, i + p.len()));
    assert(crate::text::occurs_at(a + s + b, p, j));
}

/// A request for a tunnel target is served by the session that the target names:
/// a GET by its download stream, a POST as an upload to it. Only a session
/// identifier without slash, question mark and white space can be asked for.
pub proof fn law_tunnel_request(
    prefix: Seq<char>,
    sid: Seq<char>,
    number: nat,
    rest: Seq<char>,
)
    requires
        is_tunnel_prefix(prefix),
        forall|k: int| 0 <= k < sid.len() ==> !is_white(#[trigger] sid[k]),
        lacks(sid, '/'),
        lacks(sid, '?'),
        number <= u64::MAX,
    ensures
        request_of("GET"@ + seq![' '] + tunnel_target(prefix, sid, number) + seq![' '] + rest)
            == Request::Download(tunnel_target(prefix, sid, number)),
        request_of("POST"@ + seq![' '] + tunnel_target(prefix, sid, number) + seq![' '] + rest)
            == Request::Upload(tunnel_target(prefix, sid, number)),
        path_info(tunnel_target(prefix, sid, number)) == (sid, Some(number)),
{
    reveal_strlit("GET");
    reveal_strlit("POST");
    assert("GET"@.len() != "POST"@.len());
    let t = tunnel_target(prefix, sid, number);
    lemma_tunnel_target(prefix, sid, number);
    law_tunnel_path(prefix, sid, number);
    law_request_line("GET"@, t, rest);
    law_request_line("POST"@, t, rest);
    assert forall|method: Seq<char>| is_marked(#[trigger] (method + seq![' '] + t + seq![' '] + rest)) by {
        let a = method + seq![' '];
        let b = seq![' '] + rest;
        assert(a + t + b =~= method + seq![' '] + t + seq![' '] + rest);
        if contains(t, "/ssh/"@) {
            lemma_contains_inside(a, t, b, "/ssh/"@);
        } else if contains(t, "/xhttp/"@) {
            lemma_contains_inside(a, t, b, "/xhttp/"@);
        } else if contains(t, "/split/"@) {
            lemma_contains_inside(a, t, b, "/split/"@);
        } else {
            lemma_contains_inside(a, t, b, "x-session-id"@);
        }
    }
    assert(is_marked("GET"@ + seq![' '] + t + seq![' '] + rest));
    assert(is_marked("POST"@ + seq![' '] + t + seq![' '] + rest));
}

/// What follows the request line may be any bytes, such as the body of an upload
/// that is no text: a request for a tunnel target is still served as one. `text`
/// is what the bytes of the request are read as.
pub proof fn law_tunnel_request_bytes(
    method: Seq<char>,
    prefix: Seq<char>,
    sid: Seq<char>,
    number: nat,
    head: Seq<char>,
    rest: Seq<u8>,
    text: Seq<char>,
)
    requires
        method == "GET"@ || method == "POST"@,
        is_tunnel_prefix(prefix),
        forall|k: int| 0 <= k < sid.len() ==> !is_white(#[trigger] sid[k]),
        lacks(sid, '/'),
        lacks(sid, '?'),
        number <= u64::MAX,
        keeps_valid(
            encode_utf8(
                method + seq![' '] + tunnel_target(prefix, sid, number) + seq![' '] + head,
            ) + rest,
            text,
        ),
    ensures
        request_of(text) == (if method == "GET"@ {
            Request::Download(tunnel_target(prefix, sid, number))
        } else {
            Request::Upload(tunnel_target(prefix, sid, number))
        }),
{
    let start = method + seq![' '] + tunnel_target(prefix, sid, number) + seq![' '];
    let sent = start + head;
    law_text_reads_back(sent, rest, text);
    let tail = text.skip(sent.len() as int);
    law_tunnel_request(prefix, sid, number, head + tail);
    assert(text =~= start + (head + tail));
}

/// A connection is used again: once an upload is accepted the next request is read
/// from the same connection, and served as it would be on a new one. So an upload
/// to a session may follow another without a new connection.
pub proof fn law_connection_is_reused(
    prefix: Seq<char>,
    sid: Seq<char>,
    number: nat,
    head: Seq<char>,
    body: Seq<u8>,
    req: Seq<u8>,
    status: Seq<char>,
)
    requires
        is_tunnel_prefix(prefix),
        forall|k: int| 0 <= k < sid.len() ==> !is_white(#[trigger] sid[k]),
        lacks(sid, '/'),
        lacks(sid, '?'),
        number <= u64::MAX,
        req == encode_utf8(
            "POST"@ + seq![' '] + tunnel_target(prefix, sid, number) + seq![' '] + head,
        ) + body,
        keeps_valid(req, utf8_lossy(req)),
    ensures
        after_status(UploadStatus::Accepted) == AfterAnswer::ReadNext,
        next_handling_of(Some(req), status) == Some(bytes_handling(req, status)),
        bytes_handling(req, status) == Handling::<Seq<char>, Seq<u8>>::Upload(
            tunnel_target(prefix, sid, number),
        ),
{
    reveal_strlit("GET");
    reveal_strlit("POST");
    assert("GET"@.len() != "POST"@.len());
    let sent = "POST"@ + seq![' '] + tunnel_target(prefix, sid, number) + seq![' '] + head;
    law_tunnel_request_bytes("POST"@, prefix, sid, number, head, body, utf8_lossy(req));
    law_text_reads_back(sent, body, utf8_lossy(req));
    if req.len() == 0 {
        vstd::utf8::encode_utf8_decode_utf8(sent);
        assert(encode_utf8(sent) =~= Seq::<u8>::empty());
        assert(decode_utf8(encode_utf8(sent)).len() == 0);
    }
}

/// The first byte of a text that starts with an ASCII character is that character.
proof fn lemma_first_byte(text: Seq<char>, rest: Seq<u8>)
    requires
        text.len() > 0,
        '\0' <= text[0] <= '\u{7f}',
    ensures
        encode_utf8(text).len() > 0,
        (encode_utf8(text) + rest)[0] == text[0] as u8,
{
    let c = text.take(1);
    assert(c =~= seq![text[0]]);
    assert forall|i: int| 0 <= i < c.len() implies '\0' <= #[trigger] c[i] <= '\u{7f}' by {
        assert(c[i] == text[0]);
    }
    vstd::utf8::is_ascii_chars_encode_utf8(c);
    assert(c[0] as u8 == encode_utf8(c)[0]);
    let tail = text.drop_first();
    assert(c.drop_first() =~= Seq::<char>::empty());
    assert(encode_utf8(c) == vstd::utf8::encode_scalar(c[0] as u32) + encode_utf8(c.drop_first()));
    assert(encode_utf8(Seq::<char>::empty()) =~= Seq::<u8>::empty());
    assert(encode_utf8(text) == vstd::utf8::encode_scalar(text[0] as u32) + encode_utf8(tail));
}

/// How a connection is routed, by its first bytes. Those that hold the text of the
/// custom handshake are a handshake, whatever else they hold. Otherwise the first
/// byte decides: 0x16 is TLS, a capital letter from `A` to `Z` is HTTP, and any
/// other is SSH, as is a connection on which nothing is waiting.
pub proof fn law_first_byte_routes(peeked: Seq<u8>)
    ensures
        peeked.len() == 0 ==> bytes_route(peeked) == Route::Ssh,
        peeked.len() > 0 && holds(utf8_lossy(peeked), "DTUNNEL/1.1 CLIENT_HELLO"@) ==> bytes_route(
            peeked,
        ) == Route::Handshake,
        peeked.len() > 0 && !holds(utf8_lossy(peeked), "DTUNNEL/1.1 CLIENT_HELLO"@) ==> {
            &&& peeked[0] == 0x16 ==> bytes_route(peeked) == Route::Tls
            &&& 'A' as u8 <= peeked[0] <= 'Z' as u8 ==> bytes_route(peeked) == Route::Http
            &&& peeked[0] != 0x16 && !('A' as u8 <= peeked[0] <= 'Z' as u8) ==> bytes_route(peeked)
                == Route::Ssh
        },
{
    law_contains(utf8_lossy(peeked), "DTUNNEL/1.1 CLIENT_HELLO"@);
}

/// A client that opens the custom handshake is answered as one, whatever comes
/// before the text of the handshake or behind it.
pub proof fn law_hello_is_answered(a: Seq<char>, b: Seq<char>, rest: Seq<u8>, peeked: Seq<u8>)
    requires
        peeked == encode_utf8(a + "DTUNNEL/1.1 CLIENT_HELLO"@ + b) + rest,
        peeked.len() > 0,
        keeps_valid(peeked, utf8_lossy(peeked)),
    ensures
        bytes_route(peeked) == Route::Handshake,
{
    let hello = "DTUNNEL/1.1 CLIENT_HELLO"@;
    let sent = a + hello + b;
    let text = utf8_lossy(peeked);
    law_text_reads_back(sent, rest, text);
    let tail = text.skip(sent.len() as int);
    assert(text =~= a + hello + (b + tail));
    assert(holds(text, hello));
    law_first_byte_routes(peeked);
}

/// A tunnel request, and any other request whose method is in capitals, is routed
/// to HTTP, as much of it as has been seen: `peeked` are its first `k` bytes. Only
/// the text of the custom handshake must not stand in them.
pub proof fn law_requests_are_routed(
    method: Seq<char>,
    target: Seq<char>,
    head: Seq<char>,
    rest: Seq<u8>,
    k: int,
    peeked: Seq<u8>,
)
    requires
        method.len() > 0,
        'A' <= method[0] <= 'Z',
        ({
            let req = encode_utf8(method + seq![' '] + target + seq![' '] + head) + rest;
            0 < k <= req.len() && peeked == req.take(k)
        }),
        !holds(utf8_lossy(peeked), "DTUNNEL/1.1 CLIENT_HELLO"@),
    ensures
        bytes_route(peeked) == Route::Http,
        'A' <= "GET"@[0] <= 'Z' && 'A' <= "POST"@[0] <= 'Z',
{
    reveal_strlit("GET");
    reveal_strlit("POST");
    let text = method + seq![' '] + target + seq![' '] + head;
    assert(text[0] == method[0]);
    lemma_first_byte(text, rest);
    assert(peeked[0] == (encode_utf8(text) + rest)[0]);
    law_first_byte_routes(peeked);
}

/// How to begin with a connection: only the handshake is answered, and exactly the
/// bytes seen of it are dropped; a connection for the SSH server is passed on with
/// all its bytes.
pub proof fn law_opening(seen: usize)
    ensures
        opening_of(Route::Handshake, seen) == (Opening::<Seq<char>>::Relay {
            discard: seen,
            reply: Some("DTUNNEL/1.1 200 OK\r\n\r\n"@),
        }),
        opening_of(Route::Ssh, seen) == (Opening::<Seq<char>>::Relay { discard: 0, reply: None }),
        opening_of(Route::Tls, seen) is Tls,
        opening_of(Route::Http, seen) is Http,
{
}

/// The text holds one of the four marks of the tunnel protocol.
pub open spec fn holds_mark(text: Seq<char>) -> bool {
    holds(text, "x-session-id"@) || holds(text, "/ssh/"@) || holds(text, "/xhttp/"@) || holds(
        text,
        "/split/"@,
    )
}

/// The two answers, one after the other, that turn an HTTP connection into a
/// tunnel.
pub open spec fn two_answers(status: Seq<char>) -> Seq<char> {
    "HTTP/1.1 101 ("@ + status + ")\r\n"@
        + "Connection: keep-alive\r\nKeep-Alive: timeout=30, max=100\r\n"@ + "\r\n"@
        + "HTTP/1.1 200 ("@ + status + ")\r\n"@
        + "Connection: keep-alive\r\nKeep-Alive: timeout=30, max=100\r\n"@ + "\r\n"@
}

proof fn lemma_marks(text: Seq<char>)
    ensures
        is_marked(text) == holds_mark(text),
        contains(text, "HTTP/1."@) == holds(text, "HTTP/1."@),
{
    law_contains(text, "x-session-id"@);
    law_contains(text, "/ssh/"@);
    law_contains(text, "/xhttp/"@);
    law_contains(text, "/split/"@);
    law_contains(text, "HTTP/1."@);
}

/// How a connection is served from which `data` was read, by the first two words
/// of its first line and by what the text holds. With a mark of the tunnel
/// protocol, a GET is a download and a POST an upload, for the target. Everything
/// else that holds `HTTP/1.` is answered by two answers and turned into a tunnel,
/// and nothing of it goes to the SSH server; what does not hold it goes to the SSH
/// server as it came, without an answer.
pub proof fn law_request_is_served(
    b0: Seq<char>,
    method: Seq<char>,
    b1: Seq<char>,
    target: Seq<char>,
    tail: Seq<char>,
    data: Seq<u8>,
    status: Seq<char>,
)
    requires
        is_blank(b0),
        lacks(b0, '\n'),
        is_word(method),
        is_blank(b1),
        lacks(b1, '\n'),
        b1.len() > 0,
        is_word(target),
        tail.len() > 0 ==> is_white(tail[0]),
        data.len() > 0,
        utf8_lossy(data) == b0 + method + b1 + target + tail,
    ensures
        ({
            let text = utf8_lossy(data);
            let tunnel = holds_mark(text) && (method == "GET"@ || method == "POST"@);
            &&& holds_mark(text) && method == "GET"@ ==> bytes_handling(data, status)
                == Handling::<Seq<char>, Seq<u8>>::Download(target)
            &&& holds_mark(text) && method == "POST"@ ==> bytes_handling(data, status)
                == Handling::<Seq<char>, Seq<u8>>::Upload(target)
            &&& !tunnel && holds(text, "HTTP/1."@) ==> bytes_handling(data, status) == (Handling::<
                Seq<char>,
                Seq<u8>,
            >::Relay { reply: Some(two_answers(status)), first: None })
            &&& !tunnel && !holds(text, "HTTP/1."@) ==> bytes_handling(data, status) == (Handling::<
                Seq<char>,
                Seq<u8>,
            >::Relay { reply: None, first: Some(data) })
        }),
{
    reveal_strlit("GET");
    reveal_strlit("POST");
    assert("GET"@.len() != "POST"@.len());
    let text = utf8_lossy(data);
    lemma_marks(text);
    law_first_two_words(b0, method, b1, target, tail);
    assert(upgrade_text(status) =~= two_answers(status));
}

/// An HTTP request that is none of the tunnel protocol is answered and turned into
/// a tunnel, whatever follows its request line: it bears no mark, or its method is
/// neither GET nor POST.
pub proof fn law_http_request_is_upgraded(
    method: Seq<char>,
    target: Seq<char>,
    rest: Seq<char>,
    data: Seq<u8>,
    status: Seq<char>,
)
    requires
        is_word(method),
        is_word(target),
        data.len() > 0,
        utf8_lossy(data) == method + seq![' '] + target + seq![' '] + ("HTTP/1."@ + rest),
        !holds_mark(utf8_lossy(data)) || (method != "GET"@ && method != "POST"@),
    ensures
        bytes_handling(data, status) == (Handling::<Seq<char>, Seq<u8>>::Relay {
            reply: Some(two_answers(status)),
            first: None,
        }),
{
    let text = utf8_lossy(data);
    let a = method + seq![' '] + target + seq![' '];
    assert(text =~= a + "HTTP/1."@ + rest);
    assert(holds(text, "HTTP/1."@));
    let tail = seq![' '] + ("HTTP/1."@ + rest);
    assert(text =~= Seq::<char>::empty() + method + seq![' '] + target + tail);
    law_request_is_served(Seq::empty(), method, seq![' '], target, tail, data, status);
}

/// Bytes without a mark of the tunnel protocol are never a download or an upload,
/// whether they hold a request line or not: those that hold `HTTP/1.` are answered
/// and turned into a tunnel, and all others go to the SSH server as they came. A
/// connection from which nothing was read is passed on without an answer.
pub proof fn law_unmarked_bytes_are_relayed(data: Seq<u8>, status: Seq<char>)
    requires
        !holds_mark(utf8_lossy(data)),
    ensures
        data.len() == 0 ==> bytes_handling(data, status) == (Handling::<Seq<char>, Seq<u8>>::Relay {
            reply: None,
            first: None,
        }),
        data.len() > 0 && holds(utf8_lossy(data), "HTTP/1."@) ==> bytes_handling(data, status) == (
        Handling::<Seq<char>, Seq<u8>>::Relay { reply: Some(two_answers(status)), first: None }),
        data.len() > 0 && !holds(utf8_lossy(data), "HTTP/1."@) ==> bytes_handling(data, status) == (
        Handling::<Seq<char>, Seq<u8>>::Relay { reply: None, first: Some(data) }),
{
    lemma_marks(utf8_lossy(data));
    assert(upgrade_text(status) =~= two_answers(status));
}

/// Bytes whose first line holds one word at most are never a download or an
/// upload, whatever marks they bear.
pub proof fn law_one_word_is_relayed(
    b0: Seq<char>,
    word: Seq<char>,
    b1: Seq<char>,
    tail: Seq<char>,
    data: Seq<u8>,
    status: Seq<char>,
)
    requires
        is_blank(b0),
        lacks(b0, '\n'),
        forall|k: int| 0 <= k < word.len() ==> !is_white(#[trigger] word[k]),
        is_blank(b1),
        lacks(b1, '\n'),
        tail.len() > 0 ==> tail[0] == '\n',
        data.len() > 0,
        utf8_lossy(data) == b0 + word + b1 + tail,
    ensures
        holds(utf8_lossy(data), "HTTP/1."@) ==> bytes_handling(data, status) == (Handling::<
            Seq<char>,
            Seq<u8>,
        >::Relay { reply: Some(two_answers(status)), first: None }),
        !holds(utf8_lossy(data), "HTTP/1."@) ==> bytes_handling(data, status) == (Handling::<
            Seq<char>,
            Seq<u8>,
        >::Relay { reply: None, first: Some(data) }),
{
    lemma_marks(utf8_lossy(data));
    law_one_word_is_no_request(b0, word, b1, tail);
    assert(upgrade_text(status) =~= two_answers(status));
}

/// A connection that was kept serves whatever is read next as a new connection
/// would, and is closed where nothing is read.
pub proof fn law_kept_connection(data: Seq<u8>, status: Seq<char>)
    ensures
        data.len() > 0 ==> next_handling_of(Some(data), status) == Some(
            bytes_handling(data, status),
        ),
        data.len() == 0 ==> next_handling_of(Some(data), status) is None,
        next_handling_of(None, status) is None,
{
}

/// What is decided is what the views show: no text, no data and no count is left
/// out or changed.
pub proof fn law_route_views(
    n: usize,
    t: String,
    d: Vec<u8>,
    h: Handling<String, Vec<u8>>,
    bytes: &[u8],
)
    ensures
        opt_bytes(Some(bytes)) == Some(bytes@),
        opt_bytes(None) is None,
        (Opening::Relay { discard: n, reply: Some(t) })@ == (Opening::<Seq<char>>::Relay {
            discard: n,
            reply: Some(t@),
        }),
        (Opening::<String>::Relay { discard: n, reply: None })@ == (Opening::<Seq<char>>::Relay {
            discard: n,
            reply: None,
        }),
        (Opening::<String>::Tls)@ is Tls,
        (Opening::<String>::Http)@ is Http,
        Request::Download(t)@ == Request::Download(t@),
        Request::Upload(t)@ == Request::Upload(t@),
        (Request::<String>::Upgrade)@ is Upgrade,
        (Request::<String>::Other)@ is Other,
        Handling::<String, Vec<u8>>::Download(t)@ == Handling::<Seq<char>, Seq<u8>>::Download(t@),
        Handling::<String, Vec<u8>>::Upload(t)@ == Handling::<Seq<char>, Seq<u8>>::Upload(t@),
        (Handling::<String, Vec<u8>>::Relay { reply: None, first: None })@ == (Handling::<
            Seq<char>,
            Seq<u8>,
        >::Relay { reply: None, first: None }),
        (Handling::<String, Vec<u8>>::Relay { reply: Some(t), first: None })@ == (Handling::<
            Seq<char>,
            Seq<u8>,
        >::Relay { reply: Some(t@), first: None }),
        (Handling::<String, Vec<u8>>::Relay { reply: None, first: Some(d) })@ == (Handling::<
            Seq<char>,
            Seq<u8>,
        >::Relay { reply: None, first: Some(d@) }),
        opt_handling(Some(h)) == Some(h@),
        opt_handling(None) is None,
{
}

/// The route by a first byte and a text, whatever they are: a text that holds that
/// of the custom handshake decides, and otherwise the byte does.
pub proof fn law_route_of_text(head: u8, text: Seq<char>)
    ensures
        text_route(head, text) == Route::Handshake <==> holds(text, "DTUNNEL/1.1 CLIENT_HELLO"@),
        !holds(text, "DTUNNEL/1.1 CLIENT_HELLO"@) ==> {
            &&& text_route(head, text) == Route::Tls <==> head == 0x16
            &&& text_route(head, text) == Route::Http <==> 'A' as u8 <= head <= 'Z' as u8
        },
{
    law_contains(text, "DTUNNEL/1.1 CLIENT_HELLO"@);
}

/// The text alone decides how a request is served; the bytes are only what is
/// passed on where it is none.
pub proof fn law_text_decides(
    data: Seq<u8>,
    other: Seq<u8>,
    text: Seq<char>,
    status: Seq<char>,
)
    ensures
        handling_of(data, text, status) == handling_of(other, text, status) || {
            &&& handling_of(data, text, status) == (Handling::<Seq<char>, Seq<u8>>::Relay {
                reply: None,
                first: Some(data),
            })
            &&& handling_of(other, text, status) == (Handling::<Seq<char>, Seq<u8>>::Relay {
                reply: None,
                first: Some(other),
            })
        },
        data.len() > 0 ==> bytes_handling(data, status) == handling_of(
            data,
            utf8_lossy(data),
            status,
        ),
        match request_of(text) {
            Request::Download(path) => handling_of(data, text, status) == Handling::<
                Seq<char>,
                Seq<u8>,
            >::Download(path),
            Request::Upload(path) => handling_of(data, text, status) == Handling::<
                Seq<char>,
                Seq<u8>,
            >::Upload(path),
            Request::Upgrade => handling_of(data, text, status) == (Handling::<
                Seq<char>,
                Seq<u8>,
            >::Relay { reply: Some(two_answers(status)), first: None }),
            Request::Other => handling_of(data, text, status) == (Handling::<
                Seq<char>,
                Seq<u8>,
            >::Relay { reply: None, first: Some(data) }),
        },
{
    assert(upgrade_text(status) =~= two_answers(status));
}

/// What a text asks for, by its first two words and by what it holds, whatever it
/// stands for.
pub proof fn law_classified_by_words(
    b0: Seq<char>,
    method: Seq<char>,
    b1: Seq<char>,
    target: Seq<char>,
    tail: Seq<char>,
)
    requires
        is_blank(b0),
        lacks(b0, '\n'),
        is_word(method),
        is_blank(b1),
        lacks(b1, '\n'),
        b1.len() > 0,
        is_word(target),
        tail.len() > 0 ==> is_white(tail[0]),
    ensures
        ({
            let text = b0 + method + b1 + target + tail;
            let tunnel = holds_mark(text) && (method == "GET"@ || method == "POST"@);
            &&& holds_mark(text) && method == "GET"@ ==> request_of(text) == Request::Download(
                target,
            )
            &&& holds_mark(text) && method == "POST"@ ==> request_of(text) == Request::Upload(
                target,
            )
            &&& !tunnel && holds(text, "HTTP/1."@) ==> request_of(text) is Upgrade
            &&& !tunnel && !holds(text, "HTTP/1."@) ==> request_of(text) is Other
        }),
{
    reveal_strlit("GET");
    reveal_strlit("POST");
    assert("GET"@.len() != "POST"@.len());
    lemma_marks(b0 + method + b1 + target + tail);
    law_first_two_words(b0, method, b1, target, tail);
}

/// As much of a connection is looked at as the text of the custom handshake needs,
/// and a request is read in the same amount with TLS and without; with TLS it may
/// take six times as long as the first bytes.
pub proof fn law_reading_limits()
    ensures
        PEEK_LENGTH == 64 && PEEK_LENGTH >= client_hello().len(),
        TLS_BUFFER == PLAIN_BUFFER && PLAIN_BUFFER == 256 * PEEK_LENGTH,
        PEEK_TIMEOUT_MS == 500 && TLS_READ_TIMEOUT_MS == 6 * PEEK_TIMEOUT_MS,
{
    reveal_strlit("DTUNNEL/1.1 CLIENT_HELLO");
}

} // verus!
