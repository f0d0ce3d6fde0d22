use xhttp_tunnel::request::{
    content_length_of, extract_content_length_from_bytes, extract_path_info, parse_http_request,
};

fn parts(method: &str, target: &str) -> Option<(String, String)> {
    Some((method.to_string(), target.to_string()))
}

fn info(sid: &str, number: Option<u64>) -> (String, Option<u64>) {
    (sid.to_string(), number)
}

#[test]
fn request_line_is_split_into_words() {
    assert_eq!(parse_http_request("GET /ssh/a HTTP/1.1\r\n\r\n"), parts("GET", "/ssh/a"));
    assert_eq!(parse_http_request("POST /x"), parts("POST", "/x"));
    assert_eq!(parse_http_request("  GET\t /x  \n"), parts("GET", "/x"));
    assert_eq!(parse_http_request("GET\u{a0}/x\u{3000}HTTP"), parts("GET", "/x"));
}

#[test]
fn request_line_without_two_words() {
    assert_eq!(parse_http_request(""), None);
    assert_eq!(parse_http_request("GET"), None);
    assert_eq!(parse_http_request("GET\r\n/x y"), None);
    assert_eq!(parse_http_request("\r\nGET /x"), None);
    assert_eq!(parse_http_request("\nGET /x"), None);
    assert_eq!(parse_http_request("   \t "), None);
}

#[test]
fn request_line_agrees_with_std() {
    for text in [
        "GET /a b\r\nc d", "\r", "\r\n", "a\rb c", "a b\r", "a b\r\r\n", "é ü", "x", " x y z", "\u{85}x y",
    ] {
        let expected = text.lines().next().and_then(|line| {
            let p: Vec<&str> = line.split_whitespace().collect();
            if p.len() >= 2 { parts(p[0], p[1]) } else { None }
        });
        assert_eq!(parse_http_request(text), expected, "{:?}", text);
    }
}

#[test]
fn tunnel_paths() {
    assert_eq!(extract_path_info("/ssh/session/0"), info("session", Some(0)));
    assert_eq!(extract_path_info("/xhttp/abc/17"), info("abc", Some(17)));
    assert_eq!(extract_path_info("/split/abc"), info("abc", None));
    assert_eq!(extract_path_info("/ssh/abc/x"), info("abc", None));
    assert_eq!(extract_path_info("/ssh/abc/1/2"), info("abc", Some(1)));
    assert_eq!(extract_path_info("/ssh/"), info("", None));
    assert_eq!(extract_path_info("/ssh//5"), info("", Some(5)));
    assert_eq!(extract_path_info("/ssh"), info("ssh", None));
}

#[test]
fn plain_paths() {
    assert_eq!(extract_path_info("/abc"), info("abc", None));
    assert_eq!(extract_path_info("/abc/3"), info("abc", Some(3)));
    assert_eq!(extract_path_info("abc/3/4"), info("abc", Some(3)));
    assert_eq!(extract_path_info("/abc/"), info("abc", None));
    assert_eq!(extract_path_info("/SSH/abc"), info("SSH", None));
}

#[test]
fn paths_without_session() {
    assert_eq!(extract_path_info(""), info("", None));
    assert_eq!(extract_path_info("/"), info("", None));
    assert_eq!(extract_path_info("////"), info("", None));
    assert_eq!(extract_path_info("?ssh/abc"), info("", None));
    assert_eq!(extract_path_info("/?x"), info("", None));
}

#[test]
fn query_and_leading_slashes_do_not_count() {
    assert_eq!(extract_path_info("/ssh/abc/2?x=/9"), info("abc", Some(2)));
    assert_eq!(extract_path_info("///ssh/abc/2"), info("abc", Some(2)));
    assert_eq!(extract_path_info("/ssh/a?b?c/2"), info("a", None));
}

#[test]
fn sequence_numbers_read_as_std_reads_them() {
    for text in [
        "0", "+7", "+", "", "-1", "-0", "007", " 1", "1 ", "++1", "1_0", "18446744073709551615",
        "18446744073709551616", "00018446744073709551615", "99999999999999999999999", "0x1", "٣",
    ] {
        let path = format!("/ssh/a/{}", text);
        assert_eq!(extract_path_info(&path), info("a", text.parse().ok()), "{:?}", text);
    }
}

#[test]
fn content_length_is_read() {
    assert_eq!(content_length_of("POST / HTTP/1.1\r\nContent-Length: 12\r\n\r\n"), Some(12));
    assert_eq!(content_length_of("content-length:5"), Some(5));
    assert_eq!(content_length_of("CONTENT-LENGTH:\t 5 \u{a0}\r\n"), Some(5));
    assert_eq!(content_length_of("a\nContent-Length: +6\nContent-Length: 7\n"), Some(6));
    assert_eq!(content_length_of("Content-Length: 5: 6"), Some(5));
}

#[test]
fn content_length_that_does_not_read() {
    assert_eq!(content_length_of(""), None);
    assert_eq!(content_length_of("Host: x\r\n"), None);
    assert_eq!(content_length_of(" Content-Length: 5"), None);
    assert_eq!(content_length_of("Content-Length : 5"), None);
    assert_eq!(content_length_of("Content-Length: x\r\nContent-Length: 5"), None);
    assert_eq!(content_length_of("Content-Length:"), None);
    assert_eq!(content_length_of("Content-Length: 18446744073709551616"), None);
    assert_eq!(content_length_of("Content-Length"), None);
}

#[test]
fn content_length_agrees_with_std() {
    for text in [
        "Content-Length: 5\r", "x\r\nCONTENT-length:\u{3000}8\u{2009}\r\n", "Content-Length:5\r\r\n",
        "\u{130}ontent-Length: 4", "Content-Len\u{212a}th: 3", "\n\n\ncontent-length: 2", "Content-Length: 1é",
    ] {
        let mut expected: Option<usize> = None;
        for line in text.lines() {
            if line.to_lowercase().starts_with("content-length:") {
                expected = line.split(':').nth(1).and_then(|v| v.trim().parse().ok());
                break;
            }
        }
        assert_eq!(content_length_of(text), expected, "{:?}", text);
    }
}

#[test]
fn only_ascii_letters_have_ascii_lower_case_of_the_field_name() {
    for u in 0x80..=0x10ffffu32 {
        if let Some(c) = char::from_u32(u) {
            assert!(!c.to_lowercase().any(|l| "content-length:".contains(l)), "{:x}", u);
        }
    }
}

#[test]
fn content_length_of_bytes() {
    assert_eq!(extract_content_length_from_bytes(b"POST /\r\ncontent-length: 3\r\n\r\nabc"), Some(3));
    assert_eq!(extract_content_length_from_bytes(b"\xff\xfe\r\nContent-Length: 4\r\n\r\n\xff"), Some(4));
    assert_eq!(extract_content_length_from_bytes(b"Content-Length: 4\xff\r\n"), None);
    assert_eq!(extract_content_length_from_bytes(b""), None);
    assert_eq!(extract_content_length_from_bytes("Content-Length:\u{2003}9".as_bytes()), Some(9));
}
