use xhttp_tunnel::chunk::{chunk_size_line, last_chunk, line_end};

/// Reads a chunked body, as a client does.
fn read_body(mut rest: &[u8]) -> Vec<u8> {
    let mut body = Vec::new();
    loop {
        let line = rest.iter().position(|b| *b == b'\r').unwrap();
        let size = usize::from_str_radix(std::str::from_utf8(&rest[..line]).unwrap(), 16).unwrap();
        assert_eq!(&rest[line..line + 2], b"\r\n");
        rest = &rest[line + 2..];
        body.extend_from_slice(&rest[..size]);
        assert_eq!(&rest[size..size + 2], b"\r\n");
        rest = &rest[size + 2..];
        if size == 0 {
            assert!(rest.is_empty());
            return body;
        }
    }
}

#[test]
fn sizes_are_hexadecimal() {
    assert_eq!(chunk_size_line(0), b"0\r\n");
    assert_eq!(chunk_size_line(26), b"1a\r\n");
    assert_eq!(chunk_size_line(16384), b"4000\r\n");
}

#[test]
fn ends_of_chunks() {
    assert_eq!(line_end(), b"\r\n");
    assert_eq!(last_chunk(), b"0\r\n\r\n");
}

#[test]
fn chunks_read_back() {
    let pieces: [&[u8]; 3] = [b"hello", &[0u8; 300], b"\r\n0\r\n\r\n"];
    let mut stream = Vec::new();
    for piece in pieces {
        stream.extend(chunk_size_line(piece.len()));
        stream.extend_from_slice(piece);
        stream.extend(line_end());
    }
    stream.extend(last_chunk());
    assert_eq!(read_body(&stream), pieces.concat());
}
