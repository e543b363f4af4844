use flate2::read::GzDecoder;
use http_server::types::RequestState;
use http_server::utilities::{
    append_bytes, compress_string, frame_encoded, frame_response, get_directory,
    get_request, is_supported, parse_header, populate_headers_dictionary, push_decimal,
    return_http_response, supported_encoding, FRAME_SIZE,
};
use http_server::text::{first_break, Delimiter};
use std::io::Read;

fn gunzip(bytes: &[u8]) -> String {
    let mut decoder = GzDecoder::new(bytes);
    let mut text = String::new();
    decoder.read_to_string(&mut text).unwrap();
    text
}

fn state(close: bool, accept: &str) -> RequestState {
    RequestState { close_connection: close, accept_encoding: accept.to_string() }
}

fn strings(items: &[&str]) -> Vec<String> {
    items.iter().map(|s| s.to_string()).collect()
}

fn split_response(bytes: &[u8]) -> (String, Vec<u8>) {
    let at = bytes.windows(4).position(|w| w == b"\r\n\r\n").unwrap();
    (String::from_utf8(bytes[..at].to_vec()).unwrap(), bytes[at + 4..].to_vec())
}

#[test]
fn frame_size_is_one_kibibyte() {
    assert_eq!(FRAME_SIZE, 1024);
}

#[test]
fn default_state_forces_close() {
    let s = RequestState::default();
    assert!(s.close_connection);
    assert_eq!(s.accept_encoding, "");
}

#[test]
fn get_directory_reads_the_option() {
    assert_eq!(get_directory(&strings(&["server", "--directory", "/tmp/data"])), "/tmp/data");
}

#[test]
fn get_directory_defaults_to_empty() {
    assert_eq!(get_directory(&strings(&[])), "");
    assert_eq!(get_directory(&strings(&["server"])), "");
    assert_eq!(get_directory(&strings(&["server", "--other", "x"])), "");
}

#[test]
fn get_directory_takes_the_last_occurrence() {
    let args = strings(&["server", "--directory", "a", "--directory", "b"]);
    assert_eq!(get_directory(&args), "b");
}

#[test]
fn get_directory_ignores_an_option_without_value() {
    assert_eq!(get_directory(&strings(&["server", "--directory"])), "");
    assert_eq!(get_directory(&strings(&["server", "--directory", "a", "--directory"])), "a");
}

#[test]
fn get_directory_value_may_be_the_option_itself() {
    let args = strings(&["server", "--directory", "--directory"]);
    assert_eq!(get_directory(&args), "--directory");
}

#[test]
fn first_break_finds_the_colon() {
    let line: Vec<char> = "Host: a:b".chars().collect();
    assert_eq!(first_break(&line, Delimiter::Char(':')), 4);
    let none: Vec<char> = "Host".chars().collect();
    assert_eq!(first_break(&none, Delimiter::Char(':')), 4);
    assert_eq!(first_break(&[], Delimiter::Char(':')), 0);
}

#[test]
fn parse_header_lowers_and_trims() {
    assert_eq!(
        parse_header("  User-Agent :  Test Agent/1.0  "),
        Some(("user-agent".to_string(), "Test Agent/1.0".to_string()))
    );
}

#[test]
fn parse_header_keeps_the_value_whole() {
    assert_eq!(
        parse_header("Host: localhost:4221"),
        Some(("host".to_string(), "localhost:4221".to_string()))
    );
}

#[test]
fn parse_header_without_colon_is_none() {
    assert_eq!(parse_header("no colon here"), None);
    assert_eq!(parse_header(""), None);
}

#[test]
fn parse_header_with_empty_parts() {
    assert_eq!(parse_header(":"), Some(("".to_string(), "".to_string())));
    assert_eq!(parse_header("X-Empty:"), Some(("x-empty".to_string(), "".to_string())));
}

#[test]
fn populate_headers_skips_the_request_line() {
    let headers = populate_headers_dictionary(vec!["GET: / HTTP/1.1", "Host: example"]);
    assert_eq!(headers.len(), 1);
    assert_eq!(headers.get("host"), Some(&"example".to_string()));
    assert_eq!(headers.get("get"), None);
}

#[test]
fn populate_headers_lowercases_names_only() {
    let headers = populate_headers_dictionary(vec!["GET / HTTP/1.1", "Content-Type: Text/HTML"]);
    assert_eq!(headers.get("content-type"), Some(&"Text/HTML".to_string()));
    assert_eq!(headers.get("Content-Type"), None);
}

#[test]
fn populate_headers_last_duplicate_wins() {
    let headers = populate_headers_dictionary(vec!["GET / HTTP/1.1", "X-A: 1", "x-a: 2", "X-a: 3"]);
    assert_eq!(headers.len(), 1);
    assert_eq!(headers.get("x-a"), Some(&"3".to_string()));
}

#[test]
fn populate_headers_discards_lines_without_colon() {
    let headers = populate_headers_dictionary(vec!["GET / HTTP/1.1", "garbage", "A: b", ""]);
    assert_eq!(headers.len(), 1);
    assert_eq!(headers.get("a"), Some(&"b".to_string()));
}

#[test]
fn populate_headers_of_nothing_is_empty() {
    assert_eq!(populate_headers_dictionary(vec![]).len(), 0);
    assert_eq!(populate_headers_dictionary(vec!["GET / HTTP/1.1"]).len(), 0);
}

#[test]
fn get_request_of_no_bytes_is_none() {
    assert_eq!(get_request(&[]), None);
}

#[test]
fn get_request_decodes_text() {
    assert_eq!(get_request(b"GET / HTTP/1.1\r\n\r\n"), Some("GET / HTTP/1.1\r\n\r\n".to_string()));
    assert_eq!(get_request("h\u{e9}".as_bytes()), Some("h\u{e9}".to_string()));
}

#[test]
fn get_request_replaces_invalid_bytes() {
    assert_eq!(get_request(&[b'a', 0xff, b'b']), Some("a\u{fffd}b".to_string()));
}

#[test]
fn supported_encoding_of_empty_is_none() {
    assert_eq!(supported_encoding(&"".to_string()), None);
}

#[test]
fn supported_encoding_single_token() {
    assert_eq!(supported_encoding(&"gzip".to_string()), Some("gzip".to_string()));
    assert_eq!(supported_encoding(&"identity".to_string()), None);
    assert_eq!(supported_encoding(&"GZIP".to_string()), None);
}

#[test]
fn supported_encoding_single_token_is_not_trimmed() {
    assert_eq!(supported_encoding(&" gzip".to_string()), None);
    assert_eq!(supported_encoding(&"gzip ".to_string()), None);
}

#[test]
fn supported_encoding_list_is_trimmed() {
    assert_eq!(supported_encoding(&"deflate, gzip".to_string()), Some("gzip".to_string()));
    assert_eq!(supported_encoding(&"gzip, deflate".to_string()), Some("gzip".to_string()));
    assert_eq!(supported_encoding(&"br ,  gzip  ,x".to_string()), Some("gzip".to_string()));
    assert_eq!(supported_encoding(&"gzip,".to_string()), Some("gzip".to_string()));
}

#[test]
fn supported_encoding_list_without_match() {
    assert_eq!(supported_encoding(&"deflate, br".to_string()), None);
    assert_eq!(supported_encoding(&",".to_string()), None);
    assert_eq!(supported_encoding(&"encoding-1, encoding-2".to_string()), None);
}

#[test]
fn is_supported_knows_gzip_only() {
    assert!(is_supported("gzip"));
    assert!(!is_supported("deflate"));
    assert!(!is_supported(""));
}

#[test]
fn compress_string_round_trips() {
    let packed = compress_string("abc").unwrap();
    assert_ne!(packed, b"abc".to_vec());
    assert_eq!(&packed[..2], &[0x1f, 0x8b]);
    assert_eq!(gunzip(&packed), "abc");
}

#[test]
fn compress_string_is_repeatable() {
    assert_eq!(compress_string("hello world"), compress_string("hello world"));
    assert_eq!(gunzip(&compress_string("").unwrap()), "");
}

#[test]
fn push_decimal_writes_exact_digits() {
    let cases: [(usize, &str); 8] = [
        (0, "0"),
        (7, "7"),
        (9, "9"),
        (10, "10"),
        (42, "42"),
        (100, "100"),
        (1024, "1024"),
        (9876543210, "9876543210"),
    ];
    for (n, expected) in cases {
        let mut out = String::from("n=");
        push_decimal(&mut out, n);
        assert_eq!(out, format!("n={}", expected));
    }
    let mut out = String::new();
    push_decimal(&mut out, usize::MAX);
    assert_eq!(out, format!("{}", usize::MAX));
}

#[test]
fn append_bytes_appends() {
    let mut out = vec![1u8, 2];
    append_bytes(&mut out, &[3, 4, 5]);
    assert_eq!(out, vec![1, 2, 3, 4, 5]);
    append_bytes(&mut out, &[]);
    assert_eq!(out, vec![1, 2, 3, 4, 5]);
}

#[test]
fn frame_response_plain() {
    let bytes = frame_response("200", b"foo", None, false, None);
    assert_eq!(
        bytes,
        b"HTTP/1.1 200 OK\r\nContent-Type: text/plain\r\nContent-Length: 3\r\n\r\nfoo".to_vec()
    );
}

#[test]
fn frame_response_orders_the_headers() {
    let bytes = frame_response("201", &[1, 2], Some("application/octet-stream"), true, Some("gzip"));
    let mut expected = b"HTTP/1.1 201 Created\r\nContent-Type: application/octet-stream\r\nContent-Length: 2\r\nConnection: close\r\nContent-Encoding: gzip\r\n\r\n".to_vec();
    expected.extend_from_slice(&[1, 2]);
    assert_eq!(bytes, expected);
}

#[test]
fn frame_response_status_lines() {
    let cases = [
        ("200", "HTTP/1.1 200 OK\r\n"),
        ("201", "HTTP/1.1 201 Created\r\n"),
        ("400", "HTTP/1.1 400 Bad Request\r\n"),
        ("404", "HTTP/1.1 404 Not Found\r\n"),
        ("500", "HTTP/1.1 500 Internal Server Error\r\n"),
        ("418", "HTTP/1.1 500 Internal Server Error\r\n"),
        ("", "HTTP/1.1 500 Internal Server Error\r\n"),
    ];
    for (code, line) in cases {
        let bytes = frame_response(code, b"", None, false, None);
        let expected = format!("{}Content-Type: text/plain\r\nContent-Length: 0\r\n\r\n", line);
        assert_eq!(bytes, expected.into_bytes());
    }
}

#[test]
fn frame_encoded_with_payload() {
    let bytes = frame_encoded("200", Some(vec![9, 8, 7]), None, false, "gzip");
    let mut expected = b"HTTP/1.1 200 OK\r\nContent-Type: text/plain\r\nContent-Length: 3\r\nContent-Encoding: gzip\r\n\r\n".to_vec();
    expected.extend_from_slice(&[9, 8, 7]);
    assert_eq!(bytes, expected);
}

#[test]
fn frame_encoded_reports_failed_compression() {
    let bytes = frame_encoded("200", None, Some("text/html"), true, "gzip");
    assert_eq!(
        bytes,
        b"HTTP/1.1 500 Internal Server Error\r\nContent-Type: text/plain\r\nContent-Length: 0\r\nConnection: close\r\n\r\n".to_vec()
    );
}

#[test]
fn return_http_response_plain() {
    let bytes = return_http_response("200", "foo", None, &state(false, ""));
    assert_eq!(
        bytes,
        b"HTTP/1.1 200 OK\r\nContent-Type: text/plain\r\nContent-Length: 3\r\n\r\nfoo".to_vec()
    );
}

#[test]
fn return_http_response_with_close() {
    let bytes = return_http_response("404", "", None, &state(true, ""));
    assert_eq!(
        bytes,
        b"HTTP/1.1 404 Not Found\r\nContent-Type: text/plain\r\nContent-Length: 0\r\nConnection: close\r\n\r\n".to_vec()
    );
}

#[test]
fn return_http_response_counts_bytes_not_characters() {
    let bytes = return_http_response("200", "h\u{e9}", Some("text/html"), &state(false, "identity"));
    assert_eq!(
        bytes,
        "HTTP/1.1 200 OK\r\nContent-Type: text/html\r\nContent-Length: 3\r\n\r\nh\u{e9}".as_bytes().to_vec()
    );
}

#[test]
fn return_http_response_compresses_when_negotiated() {
    let bytes = return_http_response("200", "abc", None, &state(true, "deflate, gzip"));
    let (head, body) = split_response(&bytes);
    assert_eq!(
        head,
        format!(
            "HTTP/1.1 200 OK\r\nContent-Type: text/plain\r\nContent-Length: {}\r\nConnection: close\r\nContent-Encoding: gzip",
            body.len()
        )
    );
    assert_ne!(body.len(), 3);
    assert_eq!(body, compress_string("abc").unwrap());
    assert_eq!(gunzip(&body), "abc");
}

#[test]
fn compress_string_succeeds_on_samples() {
    let long = "abc".repeat(5000);
    for sample in ["", "a", "abc", "h\u{e9}llo", long.as_str()] {
        let packed = compress_string(sample).unwrap();
        assert_eq!(gunzip(&packed), sample);
        assert_eq!(&packed[..10], &[0x1f, 0x8b, 8, 0, 0, 0, 0, 0, 0, 255]);
    }
}

#[test]
fn return_http_response_with_encoding_keeps_the_status() {
    let bytes = return_http_response("404", "", None, &state(false, "gzip"));
    assert!(bytes.starts_with(b"HTTP/1.1 404 Not Found\r\n"));
    let (head, body) = split_response(&bytes);
    assert!(head.ends_with("\r\nContent-Encoding: gzip"));
    assert_eq!(gunzip(&body), "");
}
