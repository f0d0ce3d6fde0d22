use xhttp_tunnel::pump::{uplink, UplinkAction, UplinkEvent};
use xhttp_tunnel::reply::UploadStatus;
use xhttp_tunnel::upload::{
    after_answer, delivery_status, is_flushed, open_upload, plan_upload, AfterAnswer, BodyRead,
    Delivery, PendingUpload, Upload, UploadStep,
};

fn deliver(sid: &str, body: &[u8]) -> UploadStep {
    UploadStep::Deliver(Upload { sid: sid.to_string(), body: body.to_vec() })
}

fn read(sid: &str, body: &[u8], missing: usize) -> UploadStep {
    UploadStep::ReadBody(PendingUpload { sid: sid.to_string(), body: body.to_vec(), missing })
}

#[test]
fn upload_without_session_is_not_found() {
    assert_eq!(open_upload(b"POST / x", "/"), UploadStep::Reply(UploadStatus::NotFound));
    assert_eq!(open_upload(b"", "/ssh/"), UploadStep::Reply(UploadStatus::NotFound));
    assert_eq!(plan_upload(b"", "", 9), UploadStep::Reply(UploadStatus::NotFound));
}

#[test]
fn upload_that_came_whole() {
    let req = b"POST /ssh/a/0 HTTP/1.1\r\nContent-Length: 3\r\n\r\nabc";
    assert_eq!(open_upload(req, "/ssh/a/0"), deliver("a", b"abc"));
    assert_eq!(open_upload(b"POST /ssh/a HTTP/1.1\r\n\r\n", "/ssh/a"), deliver("a", b""));
    let more = b"POST /ssh/a HTTP/1.1\r\nContent-Length: 1\r\n\r\nabc";
    assert_eq!(open_upload(more, "/ssh/a"), deliver("a", b"abc"));
    let unread = b"POST /ssh/a HTTP/1.1\r\nContent-Length: x\r\n\r\nabc";
    assert_eq!(open_upload(unread, "/ssh/a"), deliver("a", b"abc"));
}

#[test]
fn upload_with_missing_bytes() {
    let req = b"POST /ssh/a HTTP/1.1\r\nContent-Length: 10\r\n\r\nabc";
    assert_eq!(open_upload(req, "/ssh/a"), read("a", b"abc", 7));
    let head = b"POST /ssh/a HTTP/1.1\r\ncontent-length:4\r\n\r\n";
    assert_eq!(open_upload(head, "/ssh/a"), read("a", b"", 4));
}

#[test]
fn body_starts_behind_the_first_blank_line() {
    assert_eq!(plan_upload(b"\r\n\r\n\r\n\r\n", "/a", 0), deliver("a", b"\r\n\r\n"));
    assert_eq!(plan_upload(b"x\r\n\r\ny", "/a", 0), deliver("a", b"y"));
    assert_eq!(plan_upload(b"x\r\n\n\r\r\n\r\ny", "/a", 0), deliver("a", b"y"));
    assert_eq!(plan_upload(b"x\r\n\r\n", "/a", 0), deliver("a", b""));
}

#[test]
fn request_without_blank_line_has_a_head_of_four_bytes() {
    assert_eq!(plan_upload(b"abcdef", "/a", 0), deliver("a", b"ef"));
    assert_eq!(plan_upload(b"abcd", "/a", 2), read("a", b"", 2));
}

#[test]
fn missing_bytes_complete_the_body() {
    let body: Vec<u8> = (0u8..200).collect();
    for k in [0usize, 1, 99, 199, 200] {
        let mut req = b"POST /ssh/a HTTP/1.1\r\nContent-Length: 200\r\n\r\n".to_vec();
        req.extend_from_slice(&body[..k]);
        let mut step = open_upload(&req, "/ssh/a");
        if let UploadStep::ReadBody(pending) = step {
            assert_eq!(pending.missing, 200 - k);
            step = pending.resume(BodyRead::Complete(body[k..].to_vec()));
        }
        assert_eq!(step, deliver("a", &body));
    }
}

#[test]
fn bodies_that_do_not_come() {
    let pending = || PendingUpload { sid: "a".to_string(), body: vec![1], missing: 2 };
    assert_eq!(pending().resume(BodyRead::Failed), UploadStep::Reply(UploadStatus::ServerError));
    assert_eq!(pending().resume(BodyRead::TimedOut), UploadStep::Reply(UploadStatus::RequestTimeout));
}

#[test]
fn answers_by_delivery() {
    assert_eq!(delivery_status(Delivery::Sent), UploadStatus::Accepted);
    assert_eq!(delivery_status(Delivery::NoSession), UploadStatus::Accepted);
    assert_eq!(delivery_status(Delivery::ChannelClosed), UploadStatus::Unavailable);
    assert_eq!(delivery_status(Delivery::TimedOut), UploadStatus::RequestTimeout);
}

#[test]
fn only_acceptance_is_flushed() {
    assert!(is_flushed(UploadStatus::Accepted));
    assert!(!is_flushed(UploadStatus::NotFound));
    assert!(!is_flushed(UploadStatus::RequestTimeout));
    assert!(!is_flushed(UploadStatus::ServerError));
    assert!(!is_flushed(UploadStatus::Unavailable));
}

#[test]
fn only_acceptance_keeps_the_connection() {
    assert_eq!(after_answer(UploadStatus::Accepted), AfterAnswer::ReadNext);
    assert_eq!(after_answer(UploadStatus::NotFound), AfterAnswer::Close);
    assert_eq!(after_answer(UploadStatus::RequestTimeout), AfterAnswer::Close);
    assert_eq!(after_answer(UploadStatus::ServerError), AfterAnswer::Close);
    assert_eq!(after_answer(UploadStatus::Unavailable), AfterAnswer::Close);
}

#[test]
fn large_request_without_length_is_delivered_whole() {
    let mut req = b"POST /ssh/s1 HTTP/1.1\r\n\r\n".to_vec();
    let head = req.len();
    req.resize(10000, 7);
    assert_eq!(open_upload(&req, "/ssh/s1"), deliver("s1", &req[head..]));
}

#[test]
fn server_gets_the_uploads_of_its_session() {
    let requests = [
        (&b"POST /ssh/a/0 HTTP/1.1\r\n\r\none"[..], "/ssh/a/0"),
        (&b"POST /ssh/b/0 HTTP/1.1\r\n\r\nother"[..], "/ssh/b/0"),
        (&b"POST /ssh/a/1 HTTP/1.1\r\nContent-Length: 3\r\n\r\n\xff\x00\xfe"[..], "/ssh/a/1"),
    ];
    let mut written: Vec<u8> = Vec::new();
    for (req, path) in requests {
        if let UploadStep::Deliver(upload) = open_upload(req, path) {
            if upload.sid == "a" {
                let event = UplinkEvent::Message { data: upload.body, active: true };
                if let UplinkAction::Write(data) = uplink(event) {
                    written.extend(data);
                }
            }
        }
    }
    assert_eq!(written, b"one\xff\x00\xfe");
}
