use boid_hand_detector::http::{
    acknowledge_update, find_body, format_mjpeg_frame, format_mjpeg_header, format_response,
    handle_status, index_of, not_found, route, status_text, HttpRequest, Response, Route,
    StatusResponse, BODY_CAPACITY,
};
use boid_hand_detector::wire::{bytes_equal, copy_fitting, push_bytes, push_decimal};

fn text(bytes: &[u8]) -> String {
    String::from_utf8(bytes.to_vec()).unwrap()
}

#[test]
fn request_line_and_body_are_read() {
    let data = b"POST /api/position HTTP/1.1\r\nHost: device\r\nContent-Length: 2\r\n\r\n{}";
    let request = HttpRequest::parse(data).unwrap();
    assert_eq!(request.method, "POST");
    assert_eq!(request.path, "/api/position");
    assert_eq!(request.body, b"{}");
    assert_eq!(route(&request), Route::PositionUpdate);
}

#[test]
fn request_without_empty_line_has_no_body() {
    let request = HttpRequest::parse(b"GET /api/status HTTP/1.1\r\nHost: device\r\n").unwrap();
    assert_eq!(request.method, "GET");
    assert_eq!(request.path, "/api/status");
    assert_eq!(request.body, b"");
    let bare = HttpRequest::parse(b"GET /stream").unwrap();
    assert_eq!((bare.method, bare.path), ("GET", "/stream"));
    assert_eq!(bare.body, b"");
}

#[test]
fn body_follows_the_first_empty_line() {
    let request = HttpRequest::parse(b"POST / HTTP/1.1\r\n\r\nfirst\r\n\r\nsecond").unwrap();
    assert_eq!(request.body, b"first\r\n\r\nsecond");
    let empty = HttpRequest::parse(b"POST / HTTP/1.1\r\n\r\n").unwrap();
    assert_eq!(empty.body, b"");
    // Line feeds alone do not make an empty line.
    let feeds = HttpRequest::parse(b"POST / HTTP/1.1\n\nbody").unwrap();
    assert_eq!(feeds.body, b"");
    assert_eq!(find_body(b"\r\n\r\nx"), 4);
    assert_eq!(find_body(b"\r\n\r\n"), 4);
    assert_eq!(find_body(b"\r\n\r"), 3);
    assert_eq!(find_body(b"ab\r\n\r\n\r\n\r\ncd"), 6);
    assert_eq!(find_body(b""), 0);
}

#[test]
fn request_line_needs_a_space() {
    assert!(HttpRequest::parse(b"").is_none());
    assert!(HttpRequest::parse(b"GET").is_none());
    assert!(HttpRequest::parse(b"GET\r\n/path HTTP/1.1\r\n").is_none());
    assert!(HttpRequest::parse(b"\nGET /path").is_none());
    // What follows the only space is the path, even if it is empty.
    let request = HttpRequest::parse(b"GET ").unwrap();
    assert_eq!((request.method, request.path), ("GET", ""));
    let request = HttpRequest::parse(b" /path").unwrap();
    assert_eq!((request.method, request.path), ("", "/path"));
    // Two spaces in a row enclose an empty path.
    let request = HttpRequest::parse(b"GET  /path").unwrap();
    assert_eq!((request.method, request.path), ("GET", ""));
}

#[test]
fn line_ends_are_not_part_of_the_path() {
    let request = HttpRequest::parse(b"GET /a\r\nHost: x").unwrap();
    assert_eq!(request.path, "/a");
    let request = HttpRequest::parse(b"GET /a\nHost: x").unwrap();
    assert_eq!(request.path, "/a");
    // A carriage return without a line feed belongs to the line.
    let request = HttpRequest::parse(b"GET /a\r").unwrap();
    assert_eq!(request.path, "/a\r");
    // Only one carriage return goes with the line feed.
    let request = HttpRequest::parse(b"GET /a\r\r\n").unwrap();
    assert_eq!(request.path, "/a\r");
}

#[test]
fn request_must_be_utf8() {
    assert!(HttpRequest::parse(b"GET /\xff HTTP/1.1\r\n\r\n").is_none());
    // Also where the request line itself is clean.
    assert!(HttpRequest::parse(b"GET / HTTP/1.1\r\n\r\n\xc3").is_none());
    assert!(HttpRequest::parse(b"GET / HTTP/1.1\r\n\r\n\xed\xa0\x80").is_none());
    let request = HttpRequest::parse("GET /caf\u{e9}/\u{1f600} HTTP/1.1\r\n\r\n\u{e9}".as_bytes()).unwrap();
    assert_eq!(request.method, "GET");
    assert_eq!(request.path, "/caf\u{e9}/\u{1f600}");
    assert_eq!(request.body, "\u{e9}".as_bytes());
    let request = HttpRequest::parse("\u{e9} \u{e9}".as_bytes()).unwrap();
    assert_eq!((request.method, request.path), ("\u{e9}", "\u{e9}"));
}

#[test]
fn routes_of_the_device() {
    let route_of = |method, path| route(&HttpRequest { method, path, body: b"" });
    assert_eq!(route_of("GET", "/stream"), Route::Stream);
    assert_eq!(route_of("POST", "/api/position"), Route::PositionUpdate);
    assert_eq!(route_of("POST", "/api/settings"), Route::SettingsUpdate);
    assert_eq!(route_of("GET", "/api/status"), Route::Status);
    assert_eq!(route_of("POST", "/api/status"), Route::NotFound);
    assert_eq!(route_of("GET", "/api/position"), Route::NotFound);
    assert_eq!(route_of("get", "/stream"), Route::NotFound);
    assert_eq!(route_of("GET", "/stream/"), Route::NotFound);
    assert_eq!(route_of("GET", "/"), Route::NotFound);
    assert_eq!(route_of("", ""), Route::NotFound);
}

#[test]
fn index_of_finds_the_first() {
    assert_eq!(index_of(b"a b c", b' ', 0, 5), 1);
    assert_eq!(index_of(b"a b c", b' ', 2, 5), 3);
    assert_eq!(index_of(b"a b c", b' ', 4, 5), 5);
    assert_eq!(index_of(b"a b c", b' ', 0, 1), 1);
    assert_eq!(index_of(b"a b c", b'x', 0, 5), 5);
    assert_eq!(index_of(b"", b'x', 0, 0), 0);
}

#[test]
fn responses_carry_their_body() {
    let ok = Response::ok("{\"status\":\"ok\"}");
    assert_eq!(ok.status, 200);
    assert_eq!(ok.content_type, "application/json");
    assert_eq!(ok.body(), b"{\"status\":\"ok\"}");
    assert_eq!(ok.body.as_slice(), b"{\"status\":\"ok\"}");
    let json = Response::json("[1,2]");
    assert_eq!((json.status, json.body()), (200, &b"[1,2]"[..]));
    let error = Response::error(500, "{\"error\":\"Serialization failed\"}");
    assert_eq!(error.status, 500);
    assert_eq!(error.body(), b"{\"error\":\"Serialization failed\"}");
    let start = Response::mjpeg_stream_start();
    assert_eq!(start.status, 200);
    assert_eq!(start.content_type, "multipart/x-mixed-replace; boundary=BOUNDARY");
    assert_eq!(start.body(), b"--BOUNDARY\r\n");
    let raw = Response::with_body(204, &[0, 159, 255], "application/octet-stream");
    assert_eq!(raw.body(), &[0, 159, 255]);
}

#[test]
fn body_beyond_the_capacity_is_left_out() {
    assert_eq!(BODY_CAPACITY, 512);
    let fits = "x".repeat(512);
    assert_eq!(Response::ok(&fits).body().len(), 512);
    let too_long = "x".repeat(513);
    assert_eq!(Response::ok(&too_long).body(), b"");
    assert_eq!(Response::json(&too_long).body(), b"");
    assert_eq!(Response::error(400, &too_long).body(), b"");
    assert_eq!(Response::ok("").body(), b"");
}

#[test]
fn reason_phrases() {
    assert_eq!(status_text(200), "OK");
    assert_eq!(status_text(400), "Bad Request");
    assert_eq!(status_text(404), "Not Found");
    assert_eq!(status_text(500), "Internal Server Error");
    assert_eq!(status_text(0), "Unknown");
    assert_eq!(status_text(201), "Unknown");
    assert_eq!(status_text(u16::MAX), "Unknown");
}

#[test]
fn response_is_written_whole() {
    let mut buf = [0xaau8; 256];
    let written = format_response(&Response::ok("{\"status\":\"ok\"}"), &mut buf);
    let expected = "HTTP/1.1 200 OK\r\nContent-Type: application/json\r\nContent-Length: 15\r\nAccess-Control-Allow-Origin: *\r\n\r\n{\"status\":\"ok\"}";
    assert_eq!(text(&buf[..written]), expected);
    assert_eq!(written, expected.len());
    assert!(buf[written..].iter().all(|&b| b == 0xaa));

    let mut buf = [0u8; 256];
    let written = format_response(&Response::error(404, "{\"error\":\"Not found\"}"), &mut buf);
    let expected = "HTTP/1.1 404 Not Found\r\nContent-Type: application/json\r\nContent-Length: 21\r\nAccess-Control-Allow-Origin: *\r\n\r\n{\"error\":\"Not found\"}";
    assert_eq!(text(&buf[..written]), expected);

    let mut buf = [0u8; 256];
    let written = format_response(&Response::error(418, ""), &mut buf);
    let expected = "HTTP/1.1 418 Unknown\r\nContent-Type: application/json\r\nContent-Length: 0\r\nAccess-Control-Allow-Origin: *\r\n\r\n";
    assert_eq!(text(&buf[..written]), expected);
}

#[test]
fn response_is_cut_where_the_buffer_ends() {
    let response = Response::ok("{\"status\":\"ok\"}");
    let mut whole = [0u8; 256];
    let total = format_response(&response, &mut whole);
    assert_eq!(total, 118);
    for room in [0usize, 1, 9, 50, 102, 103, 104, 117, 118, 119] {
        let mut buf = vec![0x55u8; room];
        let written = format_response(&response, &mut buf);
        assert_eq!(written, room.min(total));
        assert_eq!(&buf[..written], &whole[..written]);
        assert!(buf[written..].iter().all(|&b| b == 0x55));
    }
}

#[test]
fn stream_header_is_written() {
    let expected = "HTTP/1.1 200 OK\r\nContent-Type: multipart/x-mixed-replace; boundary=BOUNDARY\r\nAccess-Control-Allow-Origin: *\r\nCache-Control: no-cache\r\n\r\n";
    let mut buf = [0u8; 256];
    let written = format_mjpeg_header(&mut buf);
    assert_eq!(written, expected.len());
    assert_eq!(written, 136);
    assert_eq!(text(&buf[..written]), expected);
    let mut small = [7u8; 10];
    assert_eq!(format_mjpeg_header(&mut small), 10);
    assert_eq!(&small, b"HTTP/1.1 2");
    let mut none: [u8; 0] = [];
    assert_eq!(format_mjpeg_header(&mut none), 0);
}

#[test]
fn stream_part_is_written() {
    let jpeg = [0xffu8, 0xd8, 0xff, 0xd9];
    let mut buf = [0u8; 128];
    let written = format_mjpeg_frame(&jpeg, &mut buf);
    let mut expected = b"--BOUNDARY\r\nContent-Type: image/jpeg\r\nContent-Length: 4\r\n\r\n".to_vec();
    expected.extend_from_slice(&jpeg);
    expected.extend_from_slice(b"\r\n");
    assert_eq!(written, 65);
    assert_eq!(&buf[..written], &expected[..]);
    assert!(buf[written..].iter().all(|&b| b == 0));

    let long = vec![1u8; 1234];
    let mut buf = vec![0u8; 2000];
    let written = format_mjpeg_frame(&long, &mut buf);
    let head = b"--BOUNDARY\r\nContent-Type: image/jpeg\r\nContent-Length: 1234\r\n\r\n";
    assert_eq!(written, head.len() + 1234 + 2);
    assert_eq!(&buf[..head.len()], &head[..]);
    assert_eq!(&buf[written - 2..written], b"\r\n");
}

#[test]
fn stream_part_line_end_is_all_or_nothing() {
    let jpeg = [0xffu8, 0xd8, 0xff, 0xd9];
    let mut whole = [0u8; 128];
    assert_eq!(format_mjpeg_frame(&jpeg, &mut whole), 65);
    // The part without its line end has 63 bytes.
    let mut exact = [9u8; 65];
    assert_eq!(format_mjpeg_frame(&jpeg, &mut exact), 65);
    assert_eq!(&exact[..], &whole[..65]);
    let mut one_short = [9u8; 64];
    assert_eq!(format_mjpeg_frame(&jpeg, &mut one_short), 63);
    assert_eq!(&one_short[..63], &whole[..63]);
    assert_eq!(one_short[63], 9);
    let mut part_only = [9u8; 63];
    assert_eq!(format_mjpeg_frame(&jpeg, &mut part_only), 63);
    let mut cut = [9u8; 40];
    assert_eq!(format_mjpeg_frame(&jpeg, &mut cut), 40);
    assert_eq!(&cut[..], &whole[..40]);
    let mut none: [u8; 0] = [];
    assert_eq!(format_mjpeg_frame(&jpeg, &mut none), 0);
}

#[test]
fn updates_are_acknowledged() {
    let yes = acknowledge_update(true);
    assert_eq!((yes.status, yes.content_type), (200, "application/json"));
    assert_eq!(yes.body(), b"{\"status\":\"ok\"}");
    let no = acknowledge_update(false);
    assert_eq!((no.status, no.content_type), (400, "application/json"));
    assert_eq!(no.body(), b"{\"error\":\"Invalid JSON\"}");
    let lost = not_found();
    assert_eq!(lost.status, 404);
    assert_eq!(lost.body(), b"{\"error\":\"Not found\"}");
}

#[test]
fn status_is_reported_as_json() {
    let response = handle_status(20, 30, true);
    assert_eq!(response.status, 200);
    assert_eq!(response.content_type, "application/json");
    assert_eq!(
        text(response.body()),
        "{\"boid_count\":20,\"fps\":30,\"target_active\":true}"
    );
    let idle = StatusResponse { boid_count: 0, fps: 0, target_active: false };
    assert_eq!(text(&idle.to_json()), "{\"boid_count\":0,\"fps\":0,\"target_active\":false}");
    let most = StatusResponse { boid_count: usize::MAX, fps: u32::MAX, target_active: false };
    let expected = format!(
        "{{\"boid_count\":{},\"fps\":4294967295,\"target_active\":false}}",
        usize::MAX
    );
    assert_eq!(text(&most.to_json()), expected);
    assert_eq!(text(handle_status(usize::MAX, u32::MAX, false).body()), expected);
}

#[test]
fn decimal_digits_of_numbers() {
    for (n, digits) in [
        (0u64, "0"),
        (7, "7"),
        (9, "9"),
        (10, "10"),
        (99, "99"),
        (100, "100"),
        (1234567890, "1234567890"),
        (u64::MAX, "18446744073709551615"),
    ] {
        let mut out = b"n=".to_vec();
        push_decimal(&mut out, n);
        assert_eq!(text(&out), format!("n={}", digits));
    }
}

#[test]
fn bytes_are_appended_compared_and_copied() {
    let mut out = vec![1u8];
    push_bytes(&mut out, &[2, 3]);
    push_bytes(&mut out, &[]);
    assert_eq!(out, vec![1, 2, 3]);
    assert!(bytes_equal(b"abc", b"abc"));
    assert!(bytes_equal(b"", b""));
    assert!(!bytes_equal(b"abc", b"abd"));
    assert!(!bytes_equal(b"abc", b"ab"));
    assert!(!bytes_equal(b"ab", b"abc"));
    let mut buf = [0u8; 5];
    assert_eq!(copy_fitting(b"abc", &mut buf, 1), 3);
    assert_eq!(&buf, b"\0abc\0");
    assert_eq!(copy_fitting(b"xyz", &mut buf, 3), 2);
    assert_eq!(&buf, b"\0abxy");
    assert_eq!(copy_fitting(b"q", &mut buf, 5), 0);
    assert_eq!(&buf, b"\0abxy");
}
