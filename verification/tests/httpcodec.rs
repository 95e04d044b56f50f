use atlas_rs::http::{
    body_mode_from_headers, build_request, chunk_size_from_line, content_length_after_read,
    ensure_header, find_content_length, has_header, header_block_complete, is_chunked,
    normalize_path, parse_response_head, should_reuse_connection, BodyMode, HeaderEntry,
};

fn header(name: &str, value: &str) -> HeaderEntry {
    HeaderEntry {
        name: name.as_bytes().to_vec(),
        value: value.as_bytes().to_vec(),
    }
}

#[test]
fn test_normalize_path_cases() {
    assert_eq!(normalize_path(&b"".to_vec()), b"/".to_vec());
    assert_eq!(normalize_path(&b"  ".to_vec()), b"/".to_vec());
    assert_eq!(normalize_path(&b"/a/b".to_vec()), b"/a/b".to_vec());
    assert_eq!(normalize_path(&b"a?x=1".to_vec()), b"/a?x=1".to_vec());
    assert_eq!(normalize_path(&b"  /p ".to_vec()), b"/p".to_vec());
}

#[test]
fn test_has_and_ensure_header() {
    let mut headers = vec![header("Content-Type", "text/plain")];
    assert!(has_header(&headers, &b"content-type".to_vec()));
    assert!(!has_header(&headers, &b"host".to_vec()));
    ensure_header(&mut headers, &b"host".to_vec(), b"example.com".to_vec());
    assert_eq!(headers.len(), 2);
    assert_eq!(headers[1].name, b"Host".to_vec());
    ensure_header(&mut headers, &b"HOST".to_vec(), b"other".to_vec());
    assert_eq!(headers.len(), 2);
}

#[test]
fn test_find_content_length_and_modes() {
    let headers = vec![header("Content-Length", "42")];
    assert_eq!(find_content_length(&headers), Some(42));
    assert!(matches!(
        body_mode_from_headers(&headers),
        BodyMode::ContentLength(42)
    ));

    let headers = vec![header("Content-Length", "0")];
    assert!(matches!(
        body_mode_from_headers(&headers),
        BodyMode::Finished
    ));

    let headers = vec![header("Transfer-Encoding", "Chunked")];
    assert!(is_chunked(&headers));
    assert!(matches!(
        body_mode_from_headers(&headers),
        BodyMode::Chunked {
            remaining_in_chunk: 0
        }
    ));

    let headers = vec![header("Server", "x")];
    assert!(matches!(body_mode_from_headers(&headers), BodyMode::Close));
}

#[test]
fn test_should_reuse_connection() {
    let keep = vec![header("Connection", "keep-alive")];
    assert!(should_reuse_connection(
        &keep,
        &BodyMode::ContentLength(3)
    ));
    assert!(!should_reuse_connection(&keep, &BodyMode::Close));
    let close = vec![header("Connection", "Close")];
    assert!(!should_reuse_connection(
        &close,
        &BodyMode::ContentLength(3)
    ));
}

#[test]
fn test_chunk_size_line() {
    assert_eq!(chunk_size_from_line(&b"1a".to_vec()), Some(26));
    assert_eq!(chunk_size_from_line(&b"FF; ext=1".to_vec()), Some(255));
    assert_eq!(chunk_size_from_line(&b" 0 ".to_vec()), Some(0));
    assert_eq!(chunk_size_from_line(&b"zz".to_vec()), None);
    assert_eq!(chunk_size_from_line(&b"".to_vec()), None);
}

#[test]
fn test_header_block_complete() {
    assert!(header_block_complete(
        &b"HTTP/1.1 200 OK\r\n\r\n".to_vec()
    ));
    assert!(!header_block_complete(&b"HTTP/1.1 200 OK\r\n".to_vec()));
    assert!(!header_block_complete(&b"\r\n".to_vec()));
}

#[test]
fn test_content_length_transitions() {
    assert!(content_length_after_read(10, 0).is_none());
    assert!(matches!(
        content_length_after_read(10, 4),
        Some(BodyMode::ContentLength(6))
    ));
    assert!(matches!(
        content_length_after_read(10, 10),
        Some(BodyMode::Finished)
    ));
}

#[test]
fn test_build_request_shape() {
    let request = build_request(
        &b"tee.example.com".to_vec(),
        &b"post".to_vec(),
        &b"api/v1".to_vec(),
        vec![header("X-Custom", "1")],
        &b"hello".to_vec(),
    );
    let text = String::from_utf8(request).unwrap();
    assert!(text.starts_with("POST /api/v1 HTTP/1.1\r\n"));
    assert!(text.contains("X-Custom: 1\r\n"));
    assert!(text.contains("Host: tee.example.com\r\n"));
    assert!(text.contains("Content-Length: 5\r\n"));
    assert!(text.contains("Connection: keep-alive\r\n"));
    assert!(text.ends_with("\r\n\r\nhello"));
}

#[test]
fn test_parse_response_head() {
    let raw = b"HTTP/1.1 200 OK\r\nContent-Length: 3\r\nServer: demo\r\n\r\n".to_vec();
    let (code, reason, headers) = parse_response_head(&raw).unwrap();
    assert_eq!(code, 200);
    assert_eq!(reason, b"OK".to_vec());
    assert_eq!(headers.len(), 2);
    assert_eq!(headers[0].name, b"Content-Length".to_vec());
    assert_eq!(headers[0].value, b"3".to_vec());
    assert_eq!(find_content_length(&headers), Some(3));

    assert!(parse_response_head(&b"\r\n".to_vec()).is_none());
    assert!(parse_response_head(&b"HTTP/1.1 abc Bad\r\n\r\n".to_vec()).is_none());
}
