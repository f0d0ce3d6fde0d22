//! Uploads: requests that carry data from the client to the SSH server. The
//! module decides what is read, what is handed on to the session, and how the
//! request is answered; the caller reads, hands on and answers.
use vstd::prelude::*;
use vstd::slice::slice_subrange;
use vstd::string::*;
use vstd::utf8::encode_utf8;

use crate::chunk::joined;
use crate::number::{decimal, is_digit, law_decimal_reads_back, lemma_decimal};
use crate::pump::{
    always_active, is_uplink_run, law_server_gets_queued, messages_taken, pieces_written,
    UplinkAction, UplinkEvent,
};
use crate::reply::{keep_alive_fields, law_upload_reply, upload_text, UploadStatus};
use crate::request::{
    content_length, ended_lines, extract_content_length_from_bytes, extract_path_info, lacks,
    law_content_length, law_first_length_counts, law_no_length_announced, names_content_length,
    no_length_among, path_info, spells_content_length,
};
use crate::text::{contains, is_blank, is_white, lines, occurs_at};
use crate::utf8::{keeps_valid, law_text_reads_back, utf8_lossy};

verus! {

/// How long the missing bytes of a body may take, in seconds.
pub const POST_READ_TIMEOUT_S: u64 = 10;

/// How long a session may take to accept data, in seconds.
pub const DELIVERY_TIMEOUT_S: u64 = 5;

/// The end of a request's head: two line endings in a row.
pub open spec fn blank_line() -> Seq<u8> {
    seq![0x0du8, 0x0au8, 0x0du8, 0x0au8]
}

/// The position of the first blank line in `req`, from position `from` on.
pub open spec fn find_blank_line(req: Seq<u8>, from: int) -> Option<int>
    decreases req.len() - from,
{
    if from + 4 > req.len() {
        None
    } else if occurs_at(req, blank_line(), from) {
        Some(from)
    } else {
        find_blank_line(req, from + 1)
    }
}

/// Where the body of a request starts: behind the first blank line. Where there
/// is none, the first four bytes count as the head.
pub open spec fn body_start(req: Seq<u8>) -> int {
    match find_blank_line(req, 0) {
        Some(i) => i + 4,
        None => 4,
    }
}

/// The part of the body that came with the head.
pub open spec fn received_body(req: Seq<u8>) -> Seq<u8> {
    req.skip(body_start(req))
}

/// How many bytes of the body are still to come. More than was announced may
/// have come already: then none.
pub open spec fn missing(req: Seq<u8>, announced: nat) -> nat {
    if received_body(req).len() < announced {
        (announced - received_body(req).len()) as nat
    } else {
        0
    }
}

/// The length that a request announces, zero where it announces none.
pub open spec fn announced_length(req: Seq<u8>) -> nat {
    match content_length(utf8_lossy(req)) {
        Some(n) => n,
        None => 0,
    }
}

/// Data for a session.
#[derive(Debug, PartialEq, Eq)]
pub struct Upload {
    /// The identifier of the session.
    pub sid: String,
    /// The data.
    pub body: Vec<u8>,
}

/// An upload whose body has not arrived whole.
#[derive(Debug, PartialEq, Eq)]
pub struct PendingUpload {
    /// The identifier of the session.
    pub sid: String,
    /// What has arrived.
    pub body: Vec<u8>,
    /// How many bytes are still to come.
    pub missing: usize,
}

/// What to do with an upload.
#[derive(Debug, PartialEq, Eq)]
pub enum UploadStep {
    /// Answer; nothing is handed on.
    Reply(UploadStatus),
    /// Read the missing bytes, in time, and tell what came of it.
    ReadBody(PendingUpload),
    /// Hand the data on to the session, in time, and tell what came of it.
    Deliver(Upload),
}

/// What came of reading the missing bytes.
#[derive(Debug, PartialEq, Eq)]
pub enum BodyRead {
    /// They came.
    Complete(Vec<u8>),
    /// The connection failed.
    Failed,
    /// They did not come in time.
    TimedOut,
}

/// What came of handing the data on.
#[derive(Clone, Copy, PartialEq, Eq, Structural, Debug)]
pub enum Delivery {
    /// The session took it.
    Sent,
    /// There is no such session.
    NoSession,
    /// The session no longer takes data.
    ChannelClosed,
    /// The session did not take it in time.
    TimedOut,
}

/// The first step of an upload to session `sid` is the right one.
pub open spec fn is_first_step(
    step: UploadStep,
    sid: Seq<char>,
    req: Seq<u8>,
    announced: nat,
) -> bool {
    match step {
        UploadStep::Reply(status) => sid.len() == 0 && status == UploadStatus::NotFound,
        UploadStep::ReadBody(p) => {
            &&& sid.len() > 0
            &&& missing(req, announced) > 0
            &&& p.sid@ == sid
            &&& p.body@ == received_body(req)
            &&& p.missing == missing(req, announced)
        },
        UploadStep::Deliver(u) => {
            &&& sid.len() > 0
            &&& missing(req, announced) == 0
            &&& u.sid@ == sid
            &&& u.body@ == received_body(req)
        },
    }
}

/// The step that follows a request for the missing bytes is the right one.
pub open spec fn is_resumed(pending: PendingUpload, read: BodyRead, step: UploadStep) -> bool {
    match read {
        BodyRead::Complete(rest) => {
            &&& step matches UploadStep::Deliver(u)
            &&& u.sid@ == pending.sid@
            &&& u.body@ == pending.body@ + rest@
        },
        BodyRead::Failed => step == UploadStep::Reply(UploadStatus::ServerError),
        BodyRead::TimedOut => step == UploadStep::Reply(UploadStatus::RequestTimeout),
    }
}

/// Finds where the body of a request starts.
fn find_body_start(req: &[u8]) -> (r: usize)
    requires
        req.len() >= 4,
    ensures
        r == body_start(req@),
        r <= req.len(),
{
    let mut i: usize = 0;
    while i <= req.len() - 4
        invariant
            req.len() >= 4,
            i <= req.len() - 3,
            find_blank_line(req@, 0) == find_blank_line(req@, i as int),
        decreases req.len() - i,
    {
        let ghost w = req@.subrange(i as int, i + 4);
        if req[i] == 0x0d && req[i + 1] == 0x0a && req[i + 2] == 0x0d && req[i + 3] == 0x0a {
            assert(w =~= blank_line());
            return i + 4;
        }
        assert(!occurs_at(req@, blank_line(), i as int)) by {
            assert(w[0] == req[i as int] && w[1] == req[i + 1] && w[2] == req[i + 2] && w[3] == req[
                i + 3]);
        }
        i = i + 1;
    }
    4
}

/// Decides the first step of an upload that announced `announced` bytes. A
/// request with a session must hold at least four bytes, which any request line
/// does.
pub fn plan_upload(req: &[u8], path: &str, announced: usize) -> (r: UploadStep)
    requires
        path_info(path@).0.len() > 0 ==> req.len() >= 4,
    ensures
        is_first_step(r, path_info(path@).0, req@, announced as nat),
{
    let (sid, _): (String, Option<u64>) = extract_path_info(path);
    if sid.as_str().is_empty() {
        return UploadStep::Reply(UploadStatus::NotFound);
    }
    let start: usize = find_body_start(req);
    let mut body: Vec<u8> = Vec::new();
    body.extend_from_slice(slice_subrange(req, start, req.len()));
    assert(body@ =~= received_body(req@));
    if body.len() < announced {
        let missing: usize = announced - body.len();
        UploadStep::ReadBody(PendingUpload { sid, body, missing })
    } else {
        UploadStep::Deliver(Upload { sid, body })
    }
}

/// Decides the first step of an upload. A request with a session must hold at
/// least four bytes, which any request line does.
pub fn open_upload(req: &[u8], path: &str) -> (r: UploadStep)
    requires
        path_info(path@).0.len() > 0 ==> req.len() >= 4,
    ensures
        is_first_step(r, path_info(path@).0, req@, announced_length(req@)),
        keeps_valid(req@, utf8_lossy(req@)),
{
    let announced: usize = match extract_content_length_from_bytes(req) {
        Some(n) => n,
        None => 0,
    };
    plan_upload(req, path, announced)
}

impl PendingUpload {
    /// Decides what follows once the missing bytes were asked for.
    pub fn resume(self, read: BodyRead) -> (r: UploadStep)
        ensures
            is_resumed(self, read, r),
    {
        match read {
            BodyRead::Complete(rest) => {
                let mut body: Vec<u8> = self.body;
                let mut more: Vec<u8> = rest;
                body.append(&mut more);
                UploadStep::Deliver(Upload { sid: self.sid, body })
            },
            BodyRead::Failed => UploadStep::Reply(UploadStatus::ServerError),
            BodyRead::TimedOut => UploadStep::Reply(UploadStatus::RequestTimeout),
        }
    }
}

/// The answer to an upload, by what came of handing it on.
pub open spec fn delivery_answer(delivery: Delivery) -> UploadStatus {
    match delivery {
        Delivery::Sent | Delivery::NoSession => UploadStatus::Accepted,
        Delivery::ChannelClosed => UploadStatus::Unavailable,
        Delivery::TimedOut => UploadStatus::RequestTimeout,
    }
}

/// The answer to an upload, by what came of handing it on. Data for a session
/// that is not there is lost, and the upload accepted all the same.
pub fn delivery_status(delivery: Delivery) -> (r: UploadStatus)
    ensures
        r == delivery_answer(delivery),
{
    match delivery {
        Delivery::Sent => UploadStatus::Accepted,
        Delivery::NoSession => UploadStatus::Accepted,
        Delivery::ChannelClosed => UploadStatus::Unavailable,
        Delivery::TimedOut => UploadStatus::RequestTimeout,
    }
}

/// Whether an answer is flushed: only the one that keeps the connection open.
pub fn is_flushed(status: UploadStatus) -> (r: bool)
    ensures
        r == (status == UploadStatus::Accepted),
{
    match status {
        UploadStatus::Accepted => true,
        _ => false,
    }
}

/// What becomes of a connection once an upload is answered.
#[derive(Clone, Copy, PartialEq, Eq, Structural, Debug)]
pub enum AfterAnswer {
    /// It is kept: the next request is read from it.
    ReadNext,
    /// It is closed.
    Close,
}

/// What becomes of a connection once an upload was answered with `status`.
pub open spec fn after_status(status: UploadStatus) -> AfterAnswer {
    if status == UploadStatus::Accepted {
        AfterAnswer::ReadNext
    } else {
        AfterAnswer::Close
    }
}

/// Decides what becomes of a connection once an upload was answered: it is kept
/// exactly where the upload was accepted.
pub fn after_answer(status: UploadStatus) -> (r: AfterAnswer)
    ensures
        r == after_status(status),
        r == AfterAnswer::ReadNext <==> status == UploadStatus::Accepted,
{
    match status {
        UploadStatus::Accepted => AfterAnswer::ReadNext,
        _ => AfterAnswer::Close,
    }
}

// ---------------------------------------------------------------------------
// Laws
// ---------------------------------------------------------------------------
/// A connection does after an answer what the answer says of it: it is kept where
/// the answer keeps it open, and closed where the answer closes it.
pub proof fn law_answer_is_kept(status: UploadStatus)
    ensures
        after_status(status) == AfterAnswer::ReadNext ==> contains(
            upload_text(status),
            keep_alive_fields(),
        ),
        after_status(status) == AfterAnswer::Close ==> contains(
            upload_text(status),
            "Connection: close\r\n"@,
        ),
{
    law_upload_reply(status);
}

proof fn lemma_find_blank_line(req: Seq<u8>, from: int, at: int)
    requires
        0 <= from <= at,
        occurs_at(req, blank_line(), at),
        forall|i: int| from <= i < at ==> !occurs_at(req, blank_line(), i),
    ensures
        find_blank_line(req, from) == Some(at),
    decreases at - from,
{
    if from < at {
        lemma_find_blank_line(req, from + 1, at);
    }
}

/// However a body of the announced length is split between what comes with the
/// head and what is read afterwards, the session gets it whole: as many bytes are
/// asked for as are missing, and the parts make up the body. `head` is all that
/// stands before the first blank line.
pub proof fn law_body_is_whole(head: Seq<u8>, body: Seq<u8>, k: int)
    requires
        0 <= k <= body.len(),
        forall|i: int|
            0 <= i < head.len() ==> !occurs_at(head + blank_line() + body.take(k), blank_line(), i),
    ensures
        received_body(head + blank_line() + body.take(k)) == body.take(k),
        missing(head + blank_line() + body.take(k), body.len()) == body.len() - k,
        received_body(head + blank_line() + body.take(k)) + body.skip(k) == body,
{
    let req = head + blank_line() + body.take(k);
    let n = head.len() as int;
    assert(req.subrange(n, n + 4) =~= blank_line());
    lemma_find_blank_line(req, 0, n);
    assert(req.skip(n + 4) =~= body.take(k));
    assert(body.take(k) + body.skip(k) =~= body);
}

/// The head of a request with the `Content-Length` field `name`, which announces
/// `n` bytes: `lead` comes before the field, `rest` after it.
pub open spec fn head_with_length(
    lead: Seq<char>,
    name: Seq<char>,
    blank: Seq<char>,
    n: nat,
    rest: Seq<char>,
) -> Seq<char> {
    lead + (name + blank + decimal(n) + seq!['\r', '\n'] + rest)
}

/// A session gets the body of an upload whole, whatever bytes it holds and
/// however it is split between what comes with the head and what is read
/// afterwards. `req` is what came first: the head, which announces the length of
/// the body and ends with the first blank line, and the first `k` bytes of the
/// body. `second` follows `first` where bytes are missing and come.
pub proof fn law_upload_is_whole(
    lead: Seq<char>,
    name: Seq<char>,
    blank: Seq<char>,
    rest: Seq<char>,
    body: Seq<u8>,
    k: int,
    req: Seq<u8>,
    sid: Seq<char>,
    first: UploadStep,
    read: BodyRead,
    second: UploadStep,
)
    requires
        0 <= k <= body.len() <= usize::MAX,
        lead.len() > 0 ==> lead.last() == '\n',
        forall|i: int|
            0 <= i < lines(lead).len() ==> !names_content_length(#[trigger] lines(lead)[i]),
        name.len() == "content-length:"@.len(),
        names_content_length(name),
        forall|i: int| 0 <= i < blank.len() ==> is_white(#[trigger] blank[i]),
        lacks(blank, '\n'),
        req == encode_utf8(head_with_length(lead, name, blank, body.len(), rest)) + body.take(k),
        body_start(req) == encode_utf8(
            head_with_length(lead, name, blank, body.len(), rest),
        ).len(),
        keeps_valid(req, utf8_lossy(req)),
        sid.len() > 0,
        is_first_step(first, sid, req, announced_length(req)),
        first matches UploadStep::ReadBody(p) ==> is_resumed(p, read, second),
        read matches BodyRead::Complete(more) && more@ == body.skip(k),
    ensures
        announced_length(req) == body.len(),
        first is ReadBody <==> k < body.len(),
        first matches UploadStep::ReadBody(p) ==> p.missing == body.len() - k,
        ({
            let last = if first is ReadBody {
                second
            } else {
                first
            };
            last matches UploadStep::Deliver(u) && u.sid@ == sid && u.body@ == body
        }),
{
    let head = head_with_length(lead, name, blank, body.len(), rest);
    let text = utf8_lossy(req);
    law_text_reads_back(head, body.take(k), text);
    let tail = text.skip(head.len() as int);
    law_content_length(lead, name, blank, body.len(), rest + tail);
    assert(text =~= head_with_length(lead, name, blank, body.len(), rest + tail));
    assert(req.skip(encode_utf8(head).len() as int) =~= body.take(k));
    assert(body.take(k) + body.skip(k) =~= body);
    if k == body.len() {
        assert(body.take(k) =~= body);
    }
}

/// The bodies of the uploads to session `sid`, in order.
pub open spec fn bodies_for(uploads: Seq<Upload>, sid: Seq<char>) -> Seq<Seq<u8>>
    decreases uploads.len(),
{
    if uploads.len() == 0 {
        Seq::empty()
    } else if uploads.last().sid@ == sid {
        bodies_for(uploads.drop_last(), sid).push(uploads.last().body@)
    } else {
        bodies_for(uploads.drop_last(), sid)
    }
}

/// The SSH server gets what the clients of a session upload, in order and from
/// the start, and nothing of other sessions. `uploads` are those that were handed
/// on, to whatever session, one after the other, while this session was the one
/// found under `sid`; `events` and `actions` are a run of its pump, which takes
/// what is handed on to it first in, first out. What it writes, put together, is a beginning of the bodies, put
/// together; it is all of them once all were taken, and the session was active
/// throughout or the pump goes on.
pub proof fn law_server_gets_uploads(
    uploads: Seq<Upload>,
    sid: Seq<char>,
    events: Seq<UplinkEvent<Seq<u8>>>,
    actions: Seq<UplinkAction<Seq<u8>>>,
)
    requires
        is_uplink_run(events, actions),
        messages_taken(events).is_prefix_of(bodies_for(uploads, sid)),
    ensures
        joined(pieces_written(actions)).is_prefix_of(joined(bodies_for(uploads, sid))),
        messages_taken(events) == bodies_for(uploads, sid) && (always_active(events) || !(
        actions.last() is Stop)) ==> joined(pieces_written(actions)) == joined(
            bodies_for(uploads, sid),
        ),
{
    law_server_gets_queued(events, actions, bodies_for(uploads, sid));
}

/// How an upload is answered, from its first step to the end: `second` follows
/// `first` where bytes are missing, and `delivery` tells what came of handing the
/// data on, if it comes to that. Each answer is given in its own cases only, and
/// an upload that is refused before it can be handed on is never handed on.
pub proof fn law_upload_answers(
    first: UploadStep,
    second: UploadStep,
    sid: Seq<char>,
    req: Seq<u8>,
    announced: nat,
    read: BodyRead,
    delivery: Delivery,
)
    requires
        is_first_step(first, sid, req, announced),
        first matches UploadStep::ReadBody(p) ==> is_resumed(p, read, second),
    ensures
        ({
            let last = if first is ReadBody {
                second
            } else {
                first
            };
            let answer = match last {
                UploadStep::Reply(status) => status,
                _ => delivery_answer(delivery),
            };
            let has_body = missing(req, announced) == 0 || read is Complete;
            &&& last is Deliver <==> sid.len() > 0 && has_body
            &&& last is Reply <==> sid.len() == 0 || !has_body
            &&& answer == UploadStatus::NotFound <==> sid.len() == 0
            &&& answer == UploadStatus::ServerError <==> sid.len() > 0 && !has_body
                && read is Failed
            &&& answer == UploadStatus::Unavailable <==> sid.len() > 0 && has_body && delivery
                == Delivery::ChannelClosed
            &&& answer == UploadStatus::RequestTimeout <==> sid.len() > 0 && (if has_body {
                delivery == Delivery::TimedOut
            } else {
                read is TimedOut
            })
            &&& answer == UploadStatus::Accepted <==> sid.len() > 0 && has_body && (delivery
                == Delivery::Sent || delivery == Delivery::NoSession)
        }),
{
}

/// The blank line that ends a head: carriage return and line feed, twice.
pub open spec fn head_end() -> Seq<u8> {
    seq![13u8, 10u8, 13u8, 10u8]
}

/// The first four bytes that are a blank line stand at the end of `head`.
pub open spec fn ends_head(head: Seq<u8>) -> bool {
    &&& head.len() >= 4
    &&& head.skip(head.len() - 4) == head_end()
    &&& forall|i: int| 0 <= i < head.len() - 4 ==> #[trigger] head.subrange(i, i + 4) != head_end()
}

/// The body of a request is what stands behind the first blank line. Where there
/// is none, it is what stands behind the first four bytes.
pub proof fn law_body_follows_head(head: Seq<u8>, body: Seq<u8>, req: Seq<u8>)
    ensures
        ends_head(head) ==> received_body(head + body) == body && body_start(head + body)
            == head.len(),
        (forall|i: int|
            0 <= i && i + 4 <= req.len() ==> #[trigger] req.subrange(i, i + 4) != head_end())
            ==> received_body(req) == req.skip(4),
{
    assert(blank_line() =~= head_end());
    if ends_head(head) {
        let all = head + body;
        let n = head.len() - 4;
        assert(all.subrange(n, n + 4) =~= head.skip(n));
        assert forall|i: int| 0 <= i < n implies !occurs_at(all, blank_line(), i) by {
            assert(all.subrange(i, i + 4) =~= head.subrange(i, i + 4));
        }
        lemma_find_blank_line(all, 0, n);
        assert(all.skip(n + 4) =~= body);
    }
    if forall|i: int|
        0 <= i && i + 4 <= req.len() ==> #[trigger] req.subrange(i, i + 4) != head_end() {
        lemma_no_blank_line(req, 0);
    }
}

proof fn lemma_no_blank_line(req: Seq<u8>, from: int)
    requires
        0 <= from,
        forall|i: int|
            0 <= i && i + 4 <= req.len() ==> #[trigger] req.subrange(i, i + 4) != head_end(),
    ensures
        find_blank_line(req, from) is None,
    decreases req.len() - from,
{
    assert(blank_line() =~= head_end());
    if from + 4 <= req.len() {
        assert(req.subrange(from, from + 4) != head_end());
        lemma_no_blank_line(req, from + 1);
    }
}

/// What the first step of an upload is, by the session, by what came of the body
/// and by what was announced: without a session it is refused; where less came
/// than was announced, just the difference is read; otherwise all that came is
/// handed on. What has come is never changed.
pub proof fn law_first_step(step: UploadStep, sid: Seq<char>, req: Seq<u8>, announced: nat)
    requires
        is_first_step(step, sid, req, announced),
    ensures
        ({
            let came = received_body(req);
            &&& sid.len() == 0 ==> step == UploadStep::Reply(UploadStatus::NotFound)
            &&& sid.len() > 0 && came.len() < announced ==> (step matches UploadStep::ReadBody(p)
                && p.sid@ == sid && p.body@ == came && p.missing + came.len() == announced)
            &&& sid.len() > 0 && came.len() >= announced ==> (step matches UploadStep::Deliver(u)
                && u.sid@ == sid && u.body@ == came)
        }),
{
}

/// What follows once the missing bytes were asked for: bytes that came are put
/// behind those that were there, for the same session; what did not come is
/// answered by why it did not.
pub proof fn law_second_step(pending: PendingUpload, read: BodyRead, step: UploadStep)
    requires
        is_resumed(pending, read, step),
    ensures
        read matches BodyRead::Complete(more) ==> (step matches UploadStep::Deliver(u) && u.sid@
            == pending.sid@ && u.body@ == pending.body@ + more@),
        read is Failed ==> step == UploadStep::Reply(UploadStatus::ServerError),
        read is TimedOut ==> step == UploadStep::Reply(UploadStatus::RequestTimeout),
{
}

/// An upload announces the number that stands in its `Content-Length` field,
/// whatever number it is and however the name is cased, and whatever bytes follow.
pub proof fn law_length_is_announced(
    lead: Seq<Seq<char>>,
    name: Seq<char>,
    blank: Seq<char>,
    n: nat,
    rest: Seq<char>,
    more: Seq<u8>,
    req: Seq<u8>,
)
    requires
        no_length_among(lead),
        spells_content_length(name),
        is_blank(blank),
        lacks(blank, '\n'),
        n <= usize::MAX,
        req == encode_utf8(head_with_length(ended_lines(lead), name, blank, n, rest)) + more,
        keeps_valid(req, utf8_lossy(req)),
    ensures
        announced_length(req) == n,
{
    let head = head_with_length(ended_lines(lead), name, blank, n, rest);
    let text = utf8_lossy(req);
    law_text_reads_back(head, more, text);
    let tail = text.skip(head.len() as int);
    lemma_decimal(n);
    law_decimal_reads_back(n, usize::MAX as nat);
    let d = decimal(n);
    assert forall|k: int| 0 <= k < d.len() implies (#[trigger] d[k]) != '\n' && d[k] != ':' by {
        assert(is_digit(d[k]));
    }
    assert(is_digit(d[0]) && is_digit(d.last()));
    law_first_length_counts(lead, name, blank, d, Seq::empty(), rest + tail);
    assert(text =~= ended_lines(lead) + (name + blank + d + Seq::<char>::empty() + seq!['\r', '\n']
        + (rest + tail)));
}

/// An upload that announces no length announces zero, so all that came is its
/// body.
pub proof fn law_no_length_is_zero(ls: Seq<Seq<char>>, last: Seq<char>, req: Seq<u8>)
    requires
        no_length_among(ls),
        no_length_among(seq![last]),
        req == encode_utf8(ended_lines(ls) + last),
        keeps_valid(req, utf8_lossy(req)),
    ensures
        announced_length(req) == 0,
{
    let text = ended_lines(ls) + last;
    assert(req =~= encode_utf8(text) + Seq::<u8>::empty());
    law_text_reads_back(text, Seq::empty(), utf8_lossy(req));
    law_no_length_announced(ls, last);
}

/// A session gets the body of an upload whole: all `body.len()` bytes that the
/// head announces, whatever the number and however the name of the field is cased,
/// and however they are split between what comes with the head and what is read
/// afterwards. The head ends with the first blank line; `first` is the first step
/// of the upload, and `second` the one after the missing bytes have come.
pub proof fn law_announced_body_arrives(
    lead: Seq<Seq<char>>,
    name: Seq<char>,
    blank: Seq<char>,
    rest: Seq<char>,
    body: Seq<u8>,
    k: int,
    req: Seq<u8>,
    sid: Seq<char>,
    first: UploadStep,
    read: BodyRead,
    second: UploadStep,
)
    requires
        0 <= k <= body.len() <= usize::MAX,
        no_length_among(lead),
        spells_content_length(name),
        is_blank(blank),
        lacks(blank, '\n'),
        ends_head(
            encode_utf8(head_with_length(ended_lines(lead), name, blank, body.len(), rest)),
        ),
        req == encode_utf8(head_with_length(ended_lines(lead), name, blank, body.len(), rest))
            + body.take(k),
        keeps_valid(req, utf8_lossy(req)),
        sid.len() > 0,
        is_first_step(first, sid, req, announced_length(req)),
        first matches UploadStep::ReadBody(p) ==> is_resumed(p, read, second),
        read matches BodyRead::Complete(more) && more@ == body.skip(k),
    ensures
        k < body.len() ==> (first matches UploadStep::ReadBody(p) && p.missing == body.len() - k
            && p.body@ == body.take(k) && (second matches UploadStep::Deliver(u) && u.sid@ == sid
            && u.body@ == body)),
        k == body.len() ==> (first matches UploadStep::Deliver(u) && u.sid@ == sid && u.body@
            == body),
{
    let head = encode_utf8(head_with_length(ended_lines(lead), name, blank, body.len(), rest));
    law_length_is_announced(lead, name, blank, body.len(), rest, body.take(k), req);
    law_body_follows_head(head, body.take(k), req);
    assert(body.take(k) + body.skip(k) =~= body);
    if k == body.len() {
        assert(body.take(k) =~= body);
    }
}

/// An upload announces what its text announces, whatever the number, and zero
/// where its text announces nothing.
pub proof fn law_announced_by_text(req: Seq<u8>, n: nat)
    ensures
        content_length(utf8_lossy(req)) == Some(n) ==> announced_length(req) == n,
        content_length(utf8_lossy(req)) is None ==> announced_length(req) == 0,
{
}

/// A session may take half as long to accept an upload as its body may take to
/// come.
pub proof fn law_upload_limits()
    ensures
        POST_READ_TIMEOUT_S == 10,
        POST_READ_TIMEOUT_S == 2 * DELIVERY_TIMEOUT_S,
{
}

} // verus!
