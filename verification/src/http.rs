//! The small HTTP vocabulary of the device: requests, routes, responses, and the parts of a
//! motion JPEG stream.

use vstd::prelude::*;
use vstd::slice::slice_subrange;
use vstd::string::StringSliceAdditionalSpecFns;
use vstd::utf8::{
    is_char_boundary, is_char_boundary_iff_not_is_continuation_byte,
    is_char_boundary_start_end_of_seq, valid_utf8, valid_utf8_split,
};
use crate::wire::{
    bytes_equal, copy_fitting, decimal_digits, fitting, push_bytes, push_decimal, written_at,
};

verus! {

/// The number of bytes that the body of a response can hold.
pub const BODY_CAPACITY: usize = 512;

/// `heapless::Vec`: a vector that holds at most `N` items in place.
#[verifier::external_type_specification]
#[verifier::external_body]
#[verifier::reject_recursive_types(T)]
pub struct ExFixedVec<T, const N: usize>(heapless::Vec<T, N>);

/// The bytes that a response body holds, in order.
pub uninterp spec fn body_bytes(body: heapless::Vec<u8, 512>) -> Seq<u8>;

/// `heapless::Vec::new`: the new vector holds nothing.
#[verifier::external_body]
fn empty_body() -> (body: heapless::Vec<u8, 512>)
    ensures
        body_bytes(body) == Seq::<u8>::empty(),
{
    heapless::Vec::new()
}

/// `heapless::Vec::extend_from_slice`: if the bytes fit into what is left of the capacity
/// of 512, they are appended; if not, the vector is left as it was and the call fails.
#[verifier::external_body]
fn extend_body(body: &mut heapless::Vec<u8, 512>, bytes: &[u8]) -> (outcome: Result<(), ()>)
    ensures
        outcome is Ok <==> body_bytes(*old(body)).len() + bytes@.len() <= 512,
        outcome is Ok ==> body_bytes(*final(body)) == body_bytes(*old(body)) + bytes@,
        outcome is Err ==> body_bytes(*final(body)) == body_bytes(*old(body)),
{
    body.extend_from_slice(bytes)
}

/// `heapless::Vec::as_slice`: the slice holds the bytes of the vector, which are never more
/// than its capacity of 512.
#[verifier::external_body]
fn body_slice(body: &heapless::Vec<u8, 512>) -> (bytes: &[u8])
    ensures
        bytes@ == body_bytes(*body),
        bytes@.len() <= 512,
{
    body.as_slice()
}

/// `core::str::from_utf8`: the bytes are a string exactly if they are valid UTF-8, and the
/// string then has these bytes.
#[verifier::external_body]
fn utf8_text(data: &[u8]) -> (text: Option<&str>)
    ensures
        text is Some <==> valid_utf8(data@),
        text matches Some(s) ==> s.spec_bytes() == data@,
{
    core::str::from_utf8(data).ok()
}

/// What fits into a response body: the bytes themselves, or nothing if they are too many.
pub open spec fn clipped(bytes: Seq<u8>) -> Seq<u8> {
    if bytes.len() <= BODY_CAPACITY {
        bytes
    } else {
        Seq::empty()
    }
}

/// An HTTP response with a body of bounded size.
pub struct Response {
    pub status: u16,
    pub body: heapless::Vec<u8, 512>,
    pub content_type: &'static str,
}

impl Response {
    /// The bytes of the body.
    pub open spec fn body_view(&self) -> Seq<u8> {
        body_bytes(self.body)
    }

    /// A response with the given status, body and content type. A body of more than
    /// `BODY_CAPACITY` bytes is left out altogether.
    pub fn with_body(status: u16, body: &[u8], content_type: &'static str) -> (response: Self)
        ensures
            response.status == status,
            response.content_type == content_type,
            response.body_view() == clipped(body@),
    {
        let mut bytes = empty_body();
        let _ = extend_body(&mut bytes, body);
        Response { status, body: bytes, content_type }
    }

    /// A JSON response with status 200.
    pub fn ok(body: &str) -> (response: Self)
        ensures
            response.status == 200,
            response.content_type == "application/json",
            response.body_view() == clipped(body.spec_bytes()),
    {
        Self::with_body(200, body.as_bytes(), "application/json")
    }

    /// A JSON response with status 200.
    pub fn json(body: &str) -> (response: Self)
        ensures
            response.status == 200,
            response.content_type == "application/json",
            response.body_view() == clipped(body.spec_bytes()),
    {
        Self::with_body(200, body.as_bytes(), "application/json")
    }

    /// A JSON response with the given status.
    pub fn error(status: u16, message: &str) -> (response: Self)
        ensures
            response.status == status,
            response.content_type == "application/json",
            response.body_view() == clipped(message.spec_bytes()),
    {
        Self::with_body(status, message.as_bytes(), "application/json")
    }

    /// The response that opens a motion JPEG stream: its body is the first boundary.
    pub fn mjpeg_stream_start() -> (response: Self)
        ensures
            response.status == 200,
            response.content_type == "multipart/x-mixed-replace; boundary=BOUNDARY",
            response.body_view() == "--BOUNDARY\r\n".spec_bytes(),
    {
        let boundary = "--BOUNDARY\r\n";
        proof {
            reveal_strlit("--BOUNDARY\r\n");
            vstd::string::is_ascii_spec_bytes(boundary);
        }
        Self::with_body(200, boundary.as_bytes(), "multipart/x-mixed-replace; boundary=BOUNDARY")
    }

    /// The bytes of the body.
    pub fn body(&self) -> (bytes: &[u8])
        ensures
            bytes@ == self.body_view(),
            bytes@.len() <= BODY_CAPACITY,
    {
        body_slice(&self.body)
    }
}

/// The reason phrase that goes with a status.
pub open spec fn spec_status_text(status: u16) -> Seq<u8> {
    if status == 200 {
        "OK".spec_bytes()
    } else if status == 400 {
        "Bad Request".spec_bytes()
    } else if status == 404 {
        "Not Found".spec_bytes()
    } else if status == 500 {
        "Internal Server Error".spec_bytes()
    } else {
        "Unknown".spec_bytes()
    }
}

/// The reason phrase that goes with a status.
pub fn status_text(status: u16) -> (text: &'static str)
    ensures
        text.spec_bytes() == spec_status_text(status),
{
    if status == 200 {
        "OK"
    } else if status == 400 {
        "Bad Request"
    } else if status == 404 {
        "Not Found"
    } else if status == 500 {
        "Internal Server Error"
    } else {
        "Unknown"
    }
}

/// The status line and the header fields of a response, up to and with the empty line.
pub open spec fn response_head(status: u16, content_type: Seq<u8>, body_len: nat) -> Seq<u8> {
    "HTTP/1.1 ".spec_bytes() + decimal_digits(status as nat) + " ".spec_bytes() + spec_status_text(
        status,
    ) + "\r\nContent-Type: ".spec_bytes() + content_type + "\r\nContent-Length: ".spec_bytes()
        + decimal_digits(body_len) + "\r\nAccess-Control-Allow-Origin: *\r\n\r\n".spec_bytes()
}

/// A response as it goes over the wire.
pub open spec fn response_message(response: Response) -> Seq<u8> {
    response_head(
        response.status,
        response.content_type.spec_bytes(),
        response.body_view().len(),
    ) + response.body_view()
}

/// Writing `first` and then, behind what fitted of it, `second` is writing `first + second`.
pub proof fn lemma_written_in_turn(
    before: Seq<u8>,
    between: Seq<u8>,
    after: Seq<u8>,
    first: Seq<u8>,
    second: Seq<u8>,
    at: int,
)
    requires
        0 <= at <= before.len(),
        written_at(before, between, first, at),
        written_at(
            between,
            after,
            second,
            at + fitting(first.len() as int, before.len() as int, at),
        ),
    ensures
        written_at(before, after, first + second, at),
        fitting((first + second).len() as int, before.len() as int, at) == fitting(
            first.len() as int,
            before.len() as int,
            at,
        ) + fitting(
            second.len() as int,
            before.len() as int,
            at + fitting(first.len() as int, before.len() as int, at),
        ),
{
    let n1 = fitting(first.len() as int, before.len() as int, at);
    let n2 = fitting(second.len() as int, before.len() as int, at + n1);
    let n = fitting((first + second).len() as int, before.len() as int, at);
    assert(n == n1 + n2);
    assert forall|i: int| 0 <= i < n implies after[at + i] == (first + second)[i] by {
        if i < n1 {
            assert(between[at + i] == first[i]);
        } else {
            assert(after[(at + n1) + (i - n1)] == second[i - n1]);
        }
    }
}

/// Writes a response into `buf`, as far as it fits, and returns the number of bytes written.
pub fn format_response(response: &Response, buf: &mut [u8]) -> (written: usize)
    ensures
        written == fitting(
            response_message(*response).len() as int,
            old(buf)@.len() as int,
            0,
        ),
        written_at(old(buf)@, final(buf)@, response_message(*response), 0),
{
    let body = response.body();
    let mut head: Vec<u8> = Vec::new();
    push_bytes(&mut head, "HTTP/1.1 ".as_bytes());
    push_decimal(&mut head, response.status as u64);
    push_bytes(&mut head, " ".as_bytes());
    push_bytes(&mut head, status_text(response.status).as_bytes());
    push_bytes(&mut head, "\r\nContent-Type: ".as_bytes());
    push_bytes(&mut head, response.content_type.as_bytes());
    push_bytes(&mut head, "\r\nContent-Length: ".as_bytes());
    push_decimal(&mut head, body.len() as u64);
    push_bytes(&mut head, "\r\nAccess-Control-Allow-Origin: *\r\n\r\n".as_bytes());
    assert(head@ =~= response_head(
        response.status,
        response.content_type.spec_bytes(),
        response.body_view().len(),
    ));
    let ghost before = buf@;
    let room = buf.len();
    let head_len = copy_fitting(head.as_slice(), buf, 0);
    let ghost between = buf@;
    let body_len = copy_fitting(body, buf, head_len);
    assert(head_len + body_len <= room);
    proof {
        lemma_written_in_turn(before, between, buf@, head@, body@, 0);
    }
    head_len + body_len
}

/// The response head that opens a motion JPEG stream.
pub open spec fn mjpeg_header() -> Seq<u8> {
    "HTTP/1.1 200 OK\r\nContent-Type: multipart/x-mixed-replace; boundary=BOUNDARY\r\nAccess-Control-Allow-Origin: *\r\nCache-Control: no-cache\r\n\r\n".spec_bytes()
}

/// Writes the response head that opens a motion JPEG stream into `buf`, as far as it fits,
/// and returns the number of bytes written.
pub fn format_mjpeg_header(buf: &mut [u8]) -> (written: usize)
    ensures
        written == fitting(mjpeg_header().len() as int, old(buf)@.len() as int, 0),
        written_at(old(buf)@, final(buf)@, mjpeg_header(), 0),
{
    let header =
        "HTTP/1.1 200 OK\r\nContent-Type: multipart/x-mixed-replace; boundary=BOUNDARY\r\nAccess-Control-Allow-Origin: *\r\nCache-Control: no-cache\r\n\r\n";
    copy_fitting(header.as_bytes(), buf, 0)
}

/// The head of one part of a motion JPEG stream that holds an image of `len` bytes.
pub open spec fn mjpeg_part_head(len: nat) -> Seq<u8> {
    "--BOUNDARY\r\n".spec_bytes() + "Content-Type: image/jpeg\r\n".spec_bytes()
        + "Content-Length: ".spec_bytes() + decimal_digits(len) + "\r\n\r\n".spec_bytes()
}

/// One part of a motion JPEG stream without the line end that closes it.
pub open spec fn mjpeg_part(jpeg: Seq<u8>) -> Seq<u8> {
    mjpeg_part_head(jpeg.len()) + jpeg
}

/// Writes one part of a motion JPEG stream into `buf` and returns the number of bytes
/// written.
///
/// The part is written as far as it fits. The line end that closes it is written only if
/// the whole part and the whole line end fit.
pub fn format_mjpeg_frame(jpeg_data: &[u8], buf: &mut [u8]) -> (written: usize)
    ensures
        mjpeg_part(jpeg_data@).len() + 2 <= old(buf)@.len() ==> {
            &&& written == mjpeg_part(jpeg_data@).len() + 2
            &&& written_at(old(buf)@, final(buf)@, mjpeg_part(jpeg_data@) + "\r\n".spec_bytes(), 0)
        },
        mjpeg_part(jpeg_data@).len() + 2 > old(buf)@.len() ==> {
            &&& written == fitting(mjpeg_part(jpeg_data@).len() as int, old(buf)@.len() as int, 0)
            &&& written_at(old(buf)@, final(buf)@, mjpeg_part(jpeg_data@), 0)
        },
{
    let mut head: Vec<u8> = Vec::new();
    push_bytes(&mut head, "--BOUNDARY\r\n".as_bytes());
    push_bytes(&mut head, "Content-Type: image/jpeg\r\n".as_bytes());
    push_bytes(&mut head, "Content-Length: ".as_bytes());
    push_decimal(&mut head, jpeg_data.len() as u64);
    push_bytes(&mut head, "\r\n\r\n".as_bytes());
    assert(head@ =~= mjpeg_part_head(jpeg_data@.len()));
    let ghost before = buf@;
    let room = buf.len();
    let head_len = copy_fitting(head.as_slice(), buf, 0);
    let ghost between = buf@;
    let data_len = copy_fitting(jpeg_data, buf, head_len);
    assert(head_len + data_len <= room);
    let ghost with_part = buf@;
    proof {
        lemma_written_in_turn(before, between, with_part, head@, jpeg_data@, 0);
    }
    let mut written = head_len + data_len;
    let line_end = "\r\n";
    proof {
        reveal_strlit("\r\n");
        vstd::string::is_ascii_spec_bytes(line_end);
        assert(line_end.spec_bytes().len() == 2);
    }
    if room - written >= 2 {
        let n = copy_fitting(line_end.as_bytes(), buf, written);
        proof {
            lemma_written_in_turn(
                before,
                with_part,
                buf@,
                mjpeg_part(jpeg_data@),
                line_end.spec_bytes(),
                0,
            );
        }
        written = written + n;
    }
    written
}

/// Whether an update could be read from a request body decides the answer to it.
pub open spec fn spec_acknowledge(understood: bool) -> (u16, Seq<u8>) {
    if understood {
        (200u16, "{\"status\":\"ok\"}".spec_bytes())
    } else {
        (400u16, "{\"error\":\"Invalid JSON\"}".spec_bytes())
    }
}

/// The answer to a position or settings update: an acknowledgement if the update could be
/// read from the request body, else a complaint with status 400.
pub fn acknowledge_update(understood: bool) -> (response: Response)
    ensures
        response.status == spec_acknowledge(understood).0,
        response.body_view() == spec_acknowledge(understood).1,
        response.content_type == "application/json",
{
    proof {
        reveal_strlit("{\"status\":\"ok\"}");
        reveal_strlit("{\"error\":\"Invalid JSON\"}");
        vstd::string::is_ascii_spec_bytes("{\"status\":\"ok\"}");
        vstd::string::is_ascii_spec_bytes("{\"error\":\"Invalid JSON\"}");
    }
    if understood {
        Response::ok("{\"status\":\"ok\"}")
    } else {
        Response::error(400, "{\"error\":\"Invalid JSON\"}")
    }
}

/// The answer to a request that no route serves.
pub fn not_found() -> (response: Response)
    ensures
        response.status == 404,
        response.body_view() == "{\"error\":\"Not found\"}".spec_bytes(),
        response.content_type == "application/json",
{
    proof {
        reveal_strlit("{\"error\":\"Not found\"}");
        vstd::string::is_ascii_spec_bytes("{\"error\":\"Not found\"}");
    }
    Response::error(404, "{\"error\":\"Not found\"}")
}

/// What the device reports of itself.
#[derive(Debug, Clone, Copy, PartialEq, Eq, Structural)]
pub struct StatusResponse {
    pub boid_count: usize,
    pub fps: u32,
    pub target_active: bool,
}

/// The text of a boolean in JSON.
pub open spec fn json_bool(value: bool) -> Seq<u8> {
    if value {
        "true".spec_bytes()
    } else {
        "false".spec_bytes()
    }
}

impl StatusResponse {
    /// The report as a JSON object, its members in the order of the fields.
    pub open spec fn spec_json(self) -> Seq<u8> {
        "{\"boid_count\":".spec_bytes() + decimal_digits(self.boid_count as nat)
            + ",\"fps\":".spec_bytes() + decimal_digits(self.fps as nat)
            + ",\"target_active\":".spec_bytes() + json_bool(self.target_active) + "}".spec_bytes()
    }

    /// The report as a JSON object.
    pub fn to_json(&self) -> (json: Vec<u8>)
        ensures
            json@ == self.spec_json(),
    {
        let mut json: Vec<u8> = Vec::new();
        push_bytes(&mut json, "{\"boid_count\":".as_bytes());
        push_decimal(&mut json, self.boid_count as u64);
        push_bytes(&mut json, ",\"fps\":".as_bytes());
        push_decimal(&mut json, self.fps as u64);
        push_bytes(&mut json, ",\"target_active\":".as_bytes());
        if self.target_active {
            push_bytes(&mut json, "true".as_bytes());
        } else {
            push_bytes(&mut json, "false".as_bytes());
        }
        push_bytes(&mut json, "}".as_bytes());
        assert(json@ =~= self.spec_json());
        json
    }
}

/// A report is short enough for the body of a response.
pub proof fn lemma_status_fits(status: StatusResponse)
    ensures
        status.spec_json().len() <= 84,
        clipped(status.spec_json()) == status.spec_json(),
{
    reveal_strlit("{\"boid_count\":");
    reveal_strlit(",\"fps\":");
    reveal_strlit(",\"target_active\":");
    reveal_strlit("true");
    reveal_strlit("false");
    reveal_strlit("}");
    vstd::string::is_ascii_spec_bytes("{\"boid_count\":");
    vstd::string::is_ascii_spec_bytes(",\"fps\":");
    vstd::string::is_ascii_spec_bytes(",\"target_active\":");
    vstd::string::is_ascii_spec_bytes("true");
    vstd::string::is_ascii_spec_bytes("false");
    vstd::string::is_ascii_spec_bytes("}");
    assert("{\"boid_count\":".spec_bytes().len() == 14);
    assert(",\"fps\":".spec_bytes().len() == 7);
    assert(",\"target_active\":".spec_bytes().len() == 17);
    assert("true".spec_bytes().len() == 4);
    assert("false".spec_bytes().len() == 5);
    assert("}".spec_bytes().len() == 1);
    crate::wire::lemma_decimal_digits_of_u64(status.boid_count as u64);
    crate::wire::lemma_decimal_digits_of_u64(status.fps as u64);
}

/// The answer to a status request: the report as JSON.
pub fn handle_status(boid_count: usize, fps: u32, target_active: bool) -> (response: Response)
    ensures
        response.status == 200,
        response.content_type == "application/json",
        response.body_view() == (StatusResponse { boid_count, fps, target_active }).spec_json(),
{
    let status = StatusResponse { boid_count, fps, target_active };
    let json = status.to_json();
    proof {
        lemma_status_fits(status);
    }
    Response::with_body(200, json.as_slice(), "application/json")
}

/// The first place from `from` on and before `to` where `bytes` holds `wanted`, or `to`
/// if there is none.
pub open spec fn find_byte(bytes: Seq<u8>, wanted: u8, from: int, to: int) -> int
    decreases to - from,
{
    if from >= to {
        to
    } else if bytes[from] == wanted {
        from
    } else {
        find_byte(bytes, wanted, from + 1, to)
    }
}

/// An empty line ends at place `at`: the four bytes before it are CR LF CR LF.
pub open spec fn blank_line_ends_at(data: Seq<u8>, at: int) -> bool {
    &&& 4 <= at <= data.len()
    &&& data[at - 4] == 13
    &&& data[at - 3] == 10
    &&& data[at - 2] == 13
    &&& data[at - 1] == 10
}

/// The place behind the first empty line that ends at `at` or later, or the end of the
/// data if there is none.
pub open spec fn body_start(data: Seq<u8>, at: int) -> int
    decreases data.len() + 1 - at,
{
    if at > data.len() {
        data.len() as int
    } else if blank_line_ends_at(data, at) {
        at
    } else {
        body_start(data, at + 1)
    }
}

/// The end of the first line: the place of the first line feed, or of the carriage return
/// right before it, or the end of the data if there is no line feed.
pub open spec fn first_line_end(data: Seq<u8>) -> int {
    let feed = find_byte(data, 10, 0, data.len() as int);
    if feed < data.len() && feed > 0 && data[feed - 1] == 13 {
        feed - 1
    } else {
        feed
    }
}

/// The place of the first space in the first line, or the end of the line.
pub open spec fn first_space(data: Seq<u8>) -> int {
    find_byte(data, 32, 0, first_line_end(data))
}

/// The place of the second space in the first line, or the end of the line.
pub open spec fn second_space(data: Seq<u8>) -> int {
    find_byte(data, 32, first_space(data) + 1, first_line_end(data))
}

/// Whether `data` begins with a request line: it is valid UTF-8 and its first line holds a
/// space.
pub open spec fn has_request_line(data: Seq<u8>) -> bool {
    valid_utf8(data) && first_space(data) < first_line_end(data)
}

/// The found place is a place between `from` and `to`, the wanted byte stands there unless
/// the place is `to`, and it stands nowhere from `from` up to the place.
pub proof fn lemma_find_byte(bytes: Seq<u8>, wanted: u8, from: int, to: int)
    requires
        0 <= from <= to <= bytes.len(),
    ensures
        from <= find_byte(bytes, wanted, from, to) <= to,
        find_byte(bytes, wanted, from, to) < to ==> bytes[find_byte(bytes, wanted, from, to)]
            == wanted,
        forall|i: int| from <= i < find_byte(bytes, wanted, from, to) ==> bytes[i] != wanted,
    decreases to - from,
{
    if from < to && bytes[from] != wanted {
        lemma_find_byte(bytes, wanted, from + 1, to);
    }
}

/// The body begins behind an empty line or at the end of the data.
pub proof fn lemma_body_start(data: Seq<u8>, at: int)
    requires
        0 <= at,
    ensures
        body_start(data, at) <= data.len(),
        at <= data.len() ==> at <= body_start(data, at),
        body_start(data, at) < data.len() ==> blank_line_ends_at(data, body_start(data, at)),
    decreases data.len() + 1 - at,
{
    if at <= data.len() && !blank_line_ends_at(data, at) {
        lemma_body_start(data, at + 1);
    }
}

/// In valid UTF-8 a character begins at every ASCII byte, and another one behind it.
pub proof fn lemma_ascii_is_a_character(bytes: Seq<u8>, at: int)
    requires
        valid_utf8(bytes),
        0 <= at < bytes.len(),
        bytes[at] < 128,
    ensures
        is_char_boundary(bytes, at),
        is_char_boundary(bytes, at + 1),
{
    is_char_boundary_iff_not_is_continuation_byte(bytes, at);
    if at + 1 == bytes.len() {
        is_char_boundary_start_end_of_seq(bytes);
    } else {
        valid_utf8_split(bytes, at);
        let rest = bytes.subrange(at, bytes.len() as int);
        assert(rest[0] == bytes[at]);
        assert(rest[1] == bytes[at + 1]);
        assert(is_char_boundary(rest, 1)) by {
            reveal_with_fuel(vstd::utf8::valid_utf8, 2);
            reveal_with_fuel(vstd::utf8::is_char_boundary, 2);
            is_char_boundary_start_end_of_seq(vstd::utf8::pop_first_scalar(rest));
        }
        is_char_boundary_iff_not_is_continuation_byte(rest, 1);
        is_char_boundary_iff_not_is_continuation_byte(bytes, at + 1);
    }
}

/// The first place from `from` on and before `to` where `data` holds `wanted`.
pub fn index_of(data: &[u8], wanted: u8, from: usize, to: usize) -> (at: usize)
    requires
        from <= to <= data@.len(),
    ensures
        at == find_byte(data@, wanted, from as int, to as int),
        from <= at <= to,
{
    let mut at: usize = from;
    while at < to && data[at] != wanted
        invariant
            from <= at <= to <= data@.len(),
            find_byte(data@, wanted, from as int, to as int) == find_byte(
                data@,
                wanted,
                at as int,
                to as int,
            ),
        decreases to - at,
    {
        at += 1;
    }
    at
}

/// The place where the body of a request begins.
pub fn find_body(data: &[u8]) -> (start: usize)
    ensures
        start == body_start(data@, 0),
        start <= data@.len(),
{
    let len = data.len();
    let mut at: usize = 0;
    while at < len && !(at >= 4 && data[at - 4] == 13 && data[at - 3] == 10 && data[at - 2] == 13
        && data[at - 1] == 10)
        invariant
            at <= len,
            len == data@.len(),
            body_start(data@, 0) == body_start(data@, at as int),
        decreases len - at,
    {
        at += 1;
    }
    proof {
        reveal_with_fuel(body_start, 3);
    }
    at
}

/// A request as far as the device reads it: method, path and body.
#[derive(Debug, Clone, Copy)]
pub struct HttpRequest<'a> {
    pub method: &'a str,
    pub path: &'a str,
    pub body: &'a [u8],
}

impl<'a> HttpRequest<'a> {
    /// Reads method, path and body from the bytes of a request.
    ///
    /// The bytes must be valid UTF-8. The method is the first line up to its first space,
    /// the path what follows up to the next space or the end of the line; a first line
    /// without a space is no request line. The body is what follows the first empty line,
    /// and is empty if there is none.
    pub fn parse(data: &'a [u8]) -> (request: Option<Self>)
        ensures
            request is Some <==> has_request_line(data@),
            request matches Some(r) ==> {
                &&& r.method.spec_bytes() == data@.subrange(0, first_space(data@))
                &&& r.path.spec_bytes() == data@.subrange(
                    first_space(data@) + 1,
                    second_space(data@),
                )
                &&& r.body@ == data@.subrange(body_start(data@, 0), data@.len() as int)
            },
    {
        let len = data.len();
        let text = match utf8_text(data) {
            Some(t) => t,
            None => {
                return None;
            },
        };
        let feed = index_of(data, 10, 0, len);
        let end = if feed < len && feed > 0 && data[feed - 1] == 13 {
            feed - 1
        } else {
            feed
        };
        let space = index_of(data, 32, 0, end);
        if space >= end {
            return None;
        }
        let next = index_of(data, 32, space + 1, end);
        proof {
            lemma_find_byte(data@, 10, 0, len as int);
            lemma_find_byte(data@, 32, 0, end as int);
            lemma_find_byte(data@, 32, space + 1, end as int);
            lemma_ascii_is_a_character(data@, space as int);
            if next < len {
                lemma_ascii_is_a_character(data@, next as int);
            } else {
                is_char_boundary_start_end_of_seq(data@);
            }
        }
        let (method, _) = text.split_at(space);
        let (line, _) = text.split_at(next);
        proof {
            let front = data@.subrange(0, next as int);
            valid_utf8_split(data@, next as int);
            assert(line.spec_bytes() == front);
            assert(front[space as int] == data@[space as int]);
            lemma_ascii_is_a_character(front, space as int);
        }
        let (_, path) = line.split_at(space + 1);
        let start = find_body(data);
        let body = slice_subrange(data, start, len);
        proof {
            assert(data@.subrange(0, next as int).subrange(space + 1, next as int) =~= data@.subrange(
                space + 1,
                next as int,
            ));
        }
        Some(HttpRequest { method, path, body })
    }
}

/// What a request asks for.
#[derive(Debug, Clone, Copy, PartialEq, Eq, Structural)]
pub enum Route {
    /// `GET /stream`: the camera stream.
    Stream,
    /// `POST /api/position`: a new target position.
    PositionUpdate,
    /// `POST /api/settings`: new settings.
    SettingsUpdate,
    /// `GET /api/status`: the report of the device.
    Status,
    /// Anything else.
    NotFound,
}

/// The route of a request with the given method and path.
pub open spec fn spec_route(method: Seq<u8>, path: Seq<u8>) -> Route {
    if method == "GET".spec_bytes() && path == "/stream".spec_bytes() {
        Route::Stream
    } else if method == "POST".spec_bytes() && path == "/api/position".spec_bytes() {
        Route::PositionUpdate
    } else if method == "POST".spec_bytes() && path == "/api/settings".spec_bytes() {
        Route::SettingsUpdate
    } else if method == "GET".spec_bytes() && path == "/api/status".spec_bytes() {
        Route::Status
    } else {
        Route::NotFound
    }
}

/// Finds the route of a request.
pub fn route(request: &HttpRequest) -> (found: Route)
    ensures
        found == spec_route(request.method.spec_bytes(), request.path.spec_bytes()),
{
    let method = request.method.as_bytes();
    let path = request.path.as_bytes();
    let get = bytes_equal(method, "GET".as_bytes());
    let post = bytes_equal(method, "POST".as_bytes());
    if get && bytes_equal(path, "/stream".as_bytes()) {
        Route::Stream
    } else if post && bytes_equal(path, "/api/position".as_bytes()) {
        Route::PositionUpdate
    } else if post && bytes_equal(path, "/api/settings".as_bytes()) {
        Route::SettingsUpdate
    } else if get && bytes_equal(path, "/api/status".as_bytes()) {
        Route::Status
    } else {
        Route::NotFound
    }
}

} // verus!
