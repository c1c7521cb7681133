//! The gRPC-Web framing of bodies, and the status that a call ends with.
//!
//! A body is a run of frames. A frame is one flag byte, the length of the
//! payload as four bytes, most significant first, and the payload. A frame
//! whose flag has the top bit set carries trailers, any other a message.

use vstd::prelude::*;
use base64::Engine;
use crate::common::string_map::StringMap;
use crate::text::{
    contains_str, find_char, parse_i32, spec_contains, spec_parse_i32, spec_to_lowercase,
    spec_trim, spec_utf8_lossy, str_chars, str_eq, string_from_range, to_lowercase, trim,
    utf8_lossy,
};

verus! {

/// Number of bytes of a frame's head.
pub const FRAME_HEAD: usize = 5;

/// Number of leading bytes that are looked at to tell base64 text from binary.
pub const SNIFF_LEN: usize = 2048;

/// The bytes that base64 text stands for, if it is well formed; standard
/// alphabet, with padding.
pub uninterp spec fn spec_base64_decode(text: Seq<u8>) -> Option<Seq<u8>>;

/// `Engine::decode` of `base64::engine::general_purpose::STANDARD`: the
/// bytes that the text stands for, or nothing if it is not well formed.
#[verifier::external_body]
fn base64_decode(text: &Vec<u8>) -> (r: Option<Vec<u8>>)
    ensures
        r is Some <==> spec_base64_decode(text@) is Some,
        r matches Some(bytes) ==> Some(bytes@) == spec_base64_decode(text@),
{
    base64::engine::general_purpose::STANDARD.decode(text).ok()
}

/// The text that a percent-encoded text stands for, if its bytes are UTF-8.
pub uninterp spec fn spec_url_decode(text: Seq<char>) -> Option<Seq<char>>;

/// `urlencoding::decode`: the text with every percent escape replaced by
/// the byte that it names, or nothing if the result is not UTF-8.
#[verifier::external_body]
fn url_decode(text: &str) -> (r: Option<String>)
    ensures
        r is Some <==> spec_url_decode(text@) is Some,
        r matches Some(s) ==> Some(s@) == spec_url_decode(text@),
{
    urlencoding::decode(text).ok().map(|s| s.into_owned())
}

/// The text with every percent escape replaced, or the text itself if
/// that cannot be done.
pub fn url_decode_or_same(text: &str) -> (r: String)
    ensures
        r@ == match spec_url_decode(text@) {
            Some(d) => d,
            None => text@,
        },
{
    match url_decode(text) {
        Some(d) => d,
        None => text.to_owned(),
    }
}

/// A number below 2^32 as four bytes, most significant first.
pub open spec fn spec_be32(n: int) -> Seq<u8> {
    seq![
        ((n / 0x100_0000) % 0x100) as u8,
        ((n / 0x1_0000) % 0x100) as u8,
        ((n / 0x100) % 0x100) as u8,
        (n % 0x100) as u8,
    ]
}

/// The number that four bytes at `i`, most significant first, stand for.
pub open spec fn spec_read_be32(b: Seq<u8>, i: int) -> int {
    b[i] * 0x100_0000 + b[i + 1] * 0x1_0000 + b[i + 2] * 0x100 + b[i + 3]
}

/// The frame of a message with the given payload; a length of 2^32 or more
/// is written modulo 2^32.
pub open spec fn spec_encode_frame(data: Seq<u8>) -> Seq<u8> {
    seq![0u8] + spec_be32((data.len() as int) % 0x1_0000_0000) + data
}

/// The frame of a message with the given payload.
pub fn encode_grpc_web_payload(data: &[u8]) -> (r: Vec<u8>)
    ensures
        r@ == spec_encode_frame(data@),
{
    let n: u64 = (data.len() as u64) % 0x1_0000_0000;
    let mut out: Vec<u8> = Vec::new();
    out.push(0x00);
    out.push(((n / 0x100_0000) % 0x100) as u8);
    out.push(((n / 0x1_0000) % 0x100) as u8);
    out.push(((n / 0x100) % 0x100) as u8);
    out.push((n % 0x100) as u8);
    assert(out@ =~= seq![0u8] + spec_be32((data.len() as int) % 0x1_0000_0000));
    let mut i: usize = 0;
    while i < data.len()
        invariant
            i <= data.len(),
            out@ == seq![0u8] + spec_be32((data.len() as int) % 0x1_0000_0000) + data@.take(
                i as int,
            ),
        decreases data.len() - i,
    {
        out.push(data[i]);
        assert(data@.take(i + 1) =~= data@.take(i as int).push(data@[i as int]));
        i += 1;
    }
    assert(data@.take(i as int) =~= data@);
    out
}

/// One frame of a body.
#[derive(Debug)]
pub struct GrpcFrame {
    pub flag: u8,
    pub payload: Vec<u8>,
}

/// The mathematical value of a frame.
pub struct GrpcFrameView {
    pub flag: u8,
    pub payload: Seq<u8>,
}

impl View for GrpcFrame {
    type V = GrpcFrameView;

    open spec fn view(&self) -> GrpcFrameView {
        GrpcFrameView { flag: self.flag, payload: self.payload@ }
    }
}

impl GrpcFrameView {
    /// Whether the frame carries trailers.
    pub open spec fn is_trailer(self) -> bool {
        self.flag >= 0x80
    }
}

/// The values of a list of frames.
pub open spec fn frames_view(s: Seq<GrpcFrame>) -> Seq<GrpcFrameView> {
    Seq::new(s.len(), |i: int| s[i]@)
}

/// The frames of a body from position `i` on: as many as are complete. What
/// follows the last complete frame is left aside.
pub open spec fn spec_frames(b: Seq<u8>, i: int) -> Seq<GrpcFrameView>
    decreases b.len() - i,
{
    if i < 0 || i + FRAME_HEAD > b.len() {
        Seq::empty()
    } else {
        let n = spec_read_be32(b, i + 1);
        if i + FRAME_HEAD + n > b.len() {
            Seq::empty()
        } else {
            seq![GrpcFrameView { flag: b[i], payload: b.subrange(i + FRAME_HEAD, i + FRAME_HEAD + n) }]
                + spec_frames(b, i + FRAME_HEAD + n)
        }
    }
}

/// The frames of a body: as many as are complete.
pub fn parse_frames(body: &[u8]) -> (r: Vec<GrpcFrame>)
    ensures
        frames_view(r@) == spec_frames(body@, 0),
{
    let mut out: Vec<GrpcFrame> = Vec::new();
    let mut i: usize = 0;
    assert(frames_view(out@) =~= Seq::empty());
    loop
        invariant
            i <= body.len(),
            spec_frames(body@, 0) == frames_view(out@) + spec_frames(body@, i as int),
        ensures
            spec_frames(body@, 0) == frames_view(out@),
        decreases body.len() - i,
    {
        if body.len() - i < FRAME_HEAD {
            break ;
        }
        let flag = body[i];
        let n: u64 = (body[i + 1] as u64) * 0x100_0000 + (body[i + 2] as u64) * 0x1_0000 + (body[i
            + 3] as u64) * 0x100 + (body[i + 4] as u64);
        let rest: usize = body.len() - i - FRAME_HEAD;
        if n > rest as u64 {
            break ;
        }
        let len: usize = n as usize;
        let start: usize = i + FRAME_HEAD;
        let mut payload: Vec<u8> = Vec::new();
        let mut k: usize = 0;
        while k < len
            invariant
                k <= len,
                start + len <= body.len(),
                payload@ == body@.subrange(start as int, start + k),
            decreases len - k,
        {
            payload.push(body[start + k]);
            k += 1;
        }
        let ghost prev = frames_view(out@);
        out.push(GrpcFrame { flag, payload });
        proof {
            let frame = GrpcFrameView {
                flag: body@[i as int],
                payload: body@.subrange(start as int, start + len),
            };
            assert(frames_view(out@) =~= prev.push(frame));
            assert(spec_frames(body@, i as int) == seq![frame] + spec_frames(body@, start + len));
            assert(prev + (seq![frame] + spec_frames(body@, start + len)) =~= prev.push(frame)
                + spec_frames(body@, start + len));
        }
        i = start + len;
    }
    out
}

/// A lone message frame is read back as it was written, if its payload is
/// shorter than 2^32 bytes.
pub proof fn lemma_frame_round_trip(data: Seq<u8>)
    requires
        data.len() < 0x1_0000_0000,
    ensures
        spec_frames(spec_encode_frame(data), 0) == seq![GrpcFrameView { flag: 0, payload: data }],
{
    let b = spec_encode_frame(data);
    let n = data.len() as int;
    assert(b.len() == 5 + n);
    assert(b[0] == 0u8);
    assert(b[1] == ((n / 0x100_0000) % 0x100) as u8);
    assert(b[2] == ((n / 0x1_0000) % 0x100) as u8);
    assert(b[3] == ((n / 0x100) % 0x100) as u8);
    assert(b[4] == (n % 0x100) as u8);
    assert(spec_read_be32(b, 1) == n);
    assert(b.subrange(5, 5 + n) =~= data);
    assert(spec_frames(b, 5 + n) =~= Seq::empty());
    assert(spec_frames(b, 0) =~= seq![GrpcFrameView { flag: 0, payload: data }]);
}

/// Whether a byte belongs to base64 text as it is sniffed: a letter, a
/// digit, plus, slash, the padding sign, or a line break.
pub open spec fn spec_is_base64_byte(b: u8) -> bool {
    (0x41 <= b <= 0x5a) || (0x61 <= b <= 0x7a) || (0x30 <= b <= 0x39) || b == 0x2b || b == 0x2f
        || b == 0x3d || b == 0x0d || b == 0x0a
}

/// Whether a byte is blank: a line break, a space or a tab.
pub open spec fn spec_is_blank_byte(b: u8) -> bool {
    b == 0x0d || b == 0x0a || b == 0x20 || b == 0x09
}

/// The bytes without the blank ones.
pub open spec fn spec_compact(body: Seq<u8>) -> Seq<u8> {
    body.filter(|b: u8| !spec_is_blank_byte(b))
}

/// Whether the first bytes of a body, at most 2048, all belong to base64 text.
pub open spec fn spec_looks_base64(body: Seq<u8>) -> bool {
    forall|i: int| 0 <= i < body.len() && i < SNIFF_LEN ==> spec_is_base64_byte(#[trigger] body[i])
}

/// Whether a content type announces a body in base64 text.
pub open spec fn spec_is_text_content(content_type: Option<Seq<char>>) -> bool {
    content_type matches Some(ct) && spec_contains(spec_to_lowercase(ct), "grpc-web-text"@)
}

/// The binary body that a body stands for: the decoded text if the content
/// type announces text or the body looks like text, and decodes; the body
/// itself otherwise.
pub open spec fn spec_decode_body(body: Seq<u8>, content_type: Option<Seq<char>>) -> Seq<u8> {
    if spec_is_text_content(content_type) || spec_looks_base64(body) {
        match spec_base64_decode(spec_compact(body)) {
            Some(decoded) => decoded,
            None => body,
        }
    } else {
        body
    }
}

/// The bytes without the blank ones.
fn compact(body: &[u8]) -> (r: Vec<u8>)
    ensures
        r@ == spec_compact(body@),
{
    let ghost keep = |b: u8| !spec_is_blank_byte(b);
    let mut out: Vec<u8> = Vec::new();
    let mut i: usize = 0;
    proof {
        reveal(Seq::filter);
        assert(body@.take(0).filter(keep) =~= Seq::empty());
    }
    while i < body.len()
        invariant
            i <= body.len(),
            keep == |b: u8| !spec_is_blank_byte(b),
            out@ == body@.take(i as int).filter(keep),
        decreases body.len() - i,
    {
        proof {
            assert(body@.take(i + 1) =~= body@.take(i as int).push(body@[i as int]));
            body@.take(i as int).lemma_filter_push(body@[i as int], keep);
        }
        let b = body[i];
        if !(b == 0x0d || b == 0x0a || b == 0x20 || b == 0x09) {
            out.push(b);
        }
        i += 1;
    }
    assert(body@.take(i as int) =~= body@);
    out
}

/// A copy of the bytes.
fn copy_bytes(body: &[u8]) -> (r: Vec<u8>)
    ensures
        r@ == body@,
{
    let mut out: Vec<u8> = Vec::new();
    let mut i: usize = 0;
    while i < body.len()
        invariant
            i <= body.len(),
            out@ == body@.take(i as int),
        decreases body.len() - i,
    {
        out.push(body[i]);
        assert(body@.take(i + 1) =~= body@.take(i as int).push(body@[i as int]));
        i += 1;
    }
    assert(body@.take(i as int) =~= body@);
    out
}

/// Whether the first bytes of a body, at most 2048, all belong to base64 text.
fn looks_base64(body: &[u8]) -> (r: bool)
    ensures
        r == spec_looks_base64(body@),
{
    let mut i: usize = 0;
    while i < body.len() && i < SNIFF_LEN
        invariant
            i <= body.len(),
            i <= SNIFF_LEN,
            forall|j: int| 0 <= j < i ==> spec_is_base64_byte(#[trigger] body@[j]),
        decreases body.len() - i,
    {
        let b = body[i];
        let ok = (0x41 <= b && b <= 0x5a) || (0x61 <= b && b <= 0x7a) || (0x30 <= b && b <= 0x39)
            || b == 0x2b || b == 0x2f || b == 0x3d || b == 0x0d || b == 0x0a;
        if !ok {
            return false;
        }
        i += 1;
    }
    true
}

/// The binary body that a body stands for.
pub fn maybe_decode_grpc_web_text(body: &[u8], content_type: Option<&str>) -> (r: Vec<u8>)
    ensures
        r@ == spec_decode_body(
            body@,
            match content_type {
                Some(ct) => Some(ct@),
                None => None,
            },
        ),
{
    let announced = match content_type {
        Some(ct) => {
            let lower = to_lowercase(ct);
            let chars = str_chars(lower.as_str());
            contains_str(&chars, "grpc-web-text")
        },
        None => false,
    };
    if announced || looks_base64(body) {
        let text = compact(body);
        match base64_decode(&text) {
            Some(decoded) => decoded,
            None => copy_bytes(body),
        }
    } else {
        copy_bytes(body)
    }
}

/// The status that a call ended with.
#[derive(Debug)]
pub struct GrpcStatus {
    pub code: i32,
    pub message: String,
}

impl GrpcStatus {
    /// Whether the call succeeded.
    pub fn ok(&self) -> (r: bool)
        ensures
            r == (self.code == 0),
    {
        self.code == 0
    }

    /// The HTTP status that says the same.
    pub open spec fn spec_http_equiv(code: i32) -> u16 {
        if code == 0 {
            200
        } else if code == 16 {
            401
        } else if code == 7 {
            403
        } else if code == 8 {
            429
        } else if code == 4 {
            504
        } else if code == 14 {
            503
        } else {
            502
        }
    }

    /// The HTTP status that says the same: 200 for success, 401 for
    /// unauthenticated, 403 for permission denied, 429 for resource
    /// exhausted, 504 for deadline exceeded, 503 for unavailable, 502 for
    /// anything else.
    pub fn http_equiv(&self) -> (r: u16)
        ensures
            r == GrpcStatus::spec_http_equiv(self.code),
    {
        match self.code {
            0 => 200,
            16 => 401,
            7 => 403,
            8 => 429,
            4 => 504,
            14 => 503,
            _ => 502,
        }
    }
}

/// The value under a key, or the empty text.
pub open spec fn spec_trailer(trailers: Map<Seq<char>, String>, key: Seq<char>) -> Seq<char> {
    if trailers.dom().contains(key) {
        trailers[key]@
    } else {
        Seq::empty()
    }
}

/// The status code that trailers give: the number under `grpc-status`, or
/// minus one if there is none that can be read.
pub open spec fn spec_status_code(trailers: Map<Seq<char>, String>) -> i32 {
    match spec_parse_i32(spec_trailer(trailers, "grpc-status"@)) {
        Some(code) => code,
        None => -1i32,
    }
}

/// The status that trailers give.
pub fn get_grpc_status(trailers: &StringMap<String>) -> (r: GrpcStatus)
    requires
        trailers.wf(),
    ensures
        r.code == spec_status_code(trailers@),
        r.message@ == spec_trailer(trailers@, "grpc-message"@),
{
    let raw = match trailers.get("grpc-status") {
        Some(v) => v.clone(),
        None => String::new(),
    };
    let message = match trailers.get("grpc-message") {
        Some(v) => v.clone(),
        None => String::new(),
    };
    let code = match parse_i32(raw.as_str()) {
        Some(c) => c,
        None => -1,
    };
    GrpcStatus { code, message }
}

/// Whether a character ends a line of a trailer block.
pub open spec fn spec_is_line_break(c: char) -> bool {
    c == '\n' || c == '\r'
}

/// Number of characters at the start of `s` before the first line break.
pub open spec fn spec_line_len(s: Seq<char>) -> int
    decreases s.len(),
{
    if s.len() > 0 && !spec_is_line_break(s[0]) {
        1 + spec_line_len(s.skip(1))
    } else {
        0
    }
}

/// The line at the start of a text is a part of it.
pub proof fn lemma_line_len_bound(s: Seq<char>)
    ensures
        0 <= spec_line_len(s) <= s.len(),
    decreases s.len(),
{
    if s.len() > 0 && !spec_is_line_break(s[0]) {
        lemma_line_len_bound(s.skip(1));
    }
}

/// The lines of a text that are not empty, in order.
pub open spec fn spec_lines(s: Seq<char>) -> Seq<Seq<char>>
    decreases s.len(),
{
    if s.len() == 0 {
        Seq::empty()
    } else {
        let n = spec_line_len(s);
        if n == 0 {
            spec_lines(s.skip(1))
        } else {
            proof {
                lemma_line_len_bound(s);
            }
            seq![s.take(n)] + spec_lines(s.skip(n))
        }
    }
}

/// Whether `i` is the position of the first colon of a line.
pub open spec fn spec_first_colon(line: Seq<char>, i: int) -> bool {
    &&& 0 <= i < line.len()
    &&& line[i] == ':'
    &&& forall|j: int| 0 <= j < i ==> line[j] != ':'
}

/// The value of a trailer as it counts: the value of `grpc-message` is
/// percent-decoded if that can be done, any other is taken as it is.
pub open spec fn spec_trailer_value(key: Seq<char>, raw: Seq<char>) -> Seq<char> {
    if key == "grpc-message"@ {
        match spec_url_decode(raw) {
            Some(decoded) => decoded,
            None => raw,
        }
    } else {
        raw
    }
}

/// The trailer that a line stands for: what is before the first colon,
/// trimmed and in lower case, is the key, what is behind it, trimmed, the
/// value. A line without a colon stands for none.
pub open spec fn spec_trailer_entry(line: Seq<char>) -> Option<(Seq<char>, Seq<char>)> {
    if line.contains(':') {
        let i = choose|i: int| spec_first_colon(line, i);
        let key = spec_to_lowercase(spec_trim(line.take(i)));
        Some((key, spec_trailer_value(key, spec_trim(line.skip(i + 1)))))
    } else {
        None
    }
}

/// The trailers with those of the lines put in, first to last.
pub open spec fn spec_put_lines(
    trailers: Map<Seq<char>, Seq<char>>,
    lines: Seq<Seq<char>>,
) -> Map<Seq<char>, Seq<char>>
    decreases lines.len(),
{
    if lines.len() == 0 {
        trailers
    } else {
        let rest = spec_put_lines(trailers, lines.drop_last());
        match spec_trailer_entry(lines.last()) {
            Some((key, value)) => rest.insert(key, value),
            None => rest,
        }
    }
}

/// The trailers with those of a trailer block put in.
pub open spec fn spec_put_block(trailers: Map<Seq<char>, Seq<char>>, payload: Seq<u8>) -> Map<Seq<char>, Seq<char>> {
    spec_put_lines(trailers, spec_lines(spec_utf8_lossy(payload)))
}

/// The payloads of the message frames among the first `n`, in order.
pub open spec fn spec_messages(frames: Seq<GrpcFrameView>, n: int) -> Seq<Seq<u8>>
    decreases n,
{
    if n <= 0 {
        Seq::empty()
    } else if frames[n - 1].is_trailer() {
        spec_messages(frames, n - 1)
    } else {
        spec_messages(frames, n - 1).push(frames[n - 1].payload)
    }
}

/// The trailers of the trailer frames among the first `n`, a later one
/// replacing an earlier one of the same key.
pub open spec fn spec_frame_trailers(frames: Seq<GrpcFrameView>, n: int) -> Map<Seq<char>, Seq<char>>
    decreases n,
{
    if n <= 0 {
        Map::empty()
    } else if frames[n - 1].is_trailer() {
        spec_put_block(spec_frame_trailers(frames, n - 1), frames[n - 1].payload)
    } else {
        spec_frame_trailers(frames, n - 1)
    }
}

/// The trailers with a value for the key put in unless there is one.
pub open spec fn spec_or_insert(
    trailers: Map<Seq<char>, Seq<char>>,
    key: Seq<char>,
    value: Option<Seq<char>>,
) -> Map<Seq<char>, Seq<char>> {
    match value {
        Some(v) => if trailers.dom().contains(key) {
            trailers
        } else {
            trailers.insert(key, v)
        },
        None => trailers,
    }
}

/// The message that a header gives: the header percent-decoded, or the
/// empty text if that cannot be done.
pub open spec fn spec_header_message(header: Option<Seq<char>>) -> Option<Seq<char>> {
    match header {
        Some(h) => Some(
            match spec_url_decode(h) {
                Some(d) => d,
                None => Seq::empty(),
            },
        ),
        None => None,
    }
}

/// The texts of a map of strings.
pub open spec fn spec_text_map(m: Map<Seq<char>, String>) -> Map<Seq<char>, Seq<char>> {
    m.map_values(|s: String| s@)
}

/// What a body holds.
#[derive(Debug)]
pub struct GrpcWebResponse {
    pub messages: Vec<Vec<u8>>,
    pub trailers: StringMap<String>,
}

/// The values of a list of payloads.
pub open spec fn payloads_view(s: Seq<Vec<u8>>) -> Seq<Seq<u8>> {
    Seq::new(s.len(), |i: int| s[i]@)
}

/// Puts the value under the key.
fn put_trailer(trailers: &mut StringMap<String>, key: &str, value: String)
    requires
        old(trailers).wf(),
    ensures
        final(trailers).wf(),
        spec_text_map(final(trailers)@) == spec_text_map(old(trailers)@).insert(key@, value@),
{
    trailers.insert(key, value);
    assert(spec_text_map(trailers@) =~= spec_text_map(old(trailers)@).insert(key@, value@));
}

/// Puts the trailer of a line, if it stands for one.
fn put_line(trailers: &mut StringMap<String>, line: &Vec<char>)
    requires
        old(trailers).wf(),
    ensures
        final(trailers).wf(),
        spec_text_map(final(trailers)@) == match spec_trailer_entry(line@) {
            Some((key, value)) => spec_text_map(old(trailers)@).insert(key, value),
            None => spec_text_map(old(trailers)@),
        },
{
    match find_char(line, ':') {
        Some(i) => {
            proof {
                let j = choose|j: int| spec_first_colon(line@, j);
                assert(spec_first_colon(line@, i as int));
                assert(j == i);
                assert(line@.skip(i + 1) =~= line@.subrange(i + 1, line.len() as int));
                assert(line@.take(i as int) =~= line@.subrange(0, i as int));
            }
            let before = string_from_range(line, 0, i);
            let after = string_from_range(line, i + 1, line.len());
            let key = to_lowercase(trim(before.as_str()).as_str());
            let raw = trim(after.as_str());
            let value = if str_eq(key.as_str(), "grpc-message") {
                match url_decode(raw.as_str()) {
                    Some(decoded) => decoded,
                    None => raw,
                }
            } else {
                raw
            };
            put_trailer(trailers, key.as_str(), value);
        },
        None => {},
    }
}

/// Puts the trailers of a trailer block.
pub fn parse_trailer_block(trailers: &mut StringMap<String>, payload: &[u8])
    requires
        old(trailers).wf(),
    ensures
        final(trailers).wf(),
        spec_text_map(final(trailers)@) == spec_put_block(spec_text_map(old(trailers)@), payload@),
{
    let text = utf8_lossy(payload);
    let chars = str_chars(text.as_str());
    let ghost start = spec_text_map(trailers@);
    let ghost mut seen: Seq<Seq<char>> = Seq::empty();
    let mut i: usize = 0;
    proof {
        assert(chars@.skip(0) =~= chars@);
    }
    while i < chars.len()
        invariant
            i <= chars.len(),
            trailers.wf(),
            spec_lines(chars@) == seen + spec_lines(chars@.skip(i as int)),
            spec_text_map(trailers@) == spec_put_lines(start, seen),
        decreases chars.len() - i,
    {
        let ghost rest = chars@.skip(i as int);
        let mut j: usize = i;
        while j < chars.len() && !(chars[j] == '\n' || chars[j] == '\r')
            invariant
                i <= j <= chars.len(),
                spec_line_len(chars@.skip(i as int)) == (j - i) + spec_line_len(chars@.skip(j as int)),
            decreases chars.len() - j,
        {
            proof {
                assert(chars@.skip(j as int)[0] == chars[j as int]);
                assert(chars@.skip(j as int).skip(1) =~= chars@.skip(j + 1));
            }
            j += 1;
        }
        proof {
            if j < chars.len() {
                assert(chars@.skip(j as int)[0] == chars[j as int]);
            }
            assert(spec_line_len(rest) == j - i);
        }
        if j == i {
            proof {
                assert(rest.skip(1) =~= chars@.skip(i + 1));
            }
            i += 1;
        } else {
            let mut line: Vec<char> = Vec::new();
            let mut k: usize = i;
            while k < j
                invariant
                    i <= k <= j <= chars.len(),
                    line@ == chars@.subrange(i as int, k as int),
                decreases j - k,
            {
                line.push(chars[k]);
                k += 1;
            }
            proof {
                assert(line@ =~= rest.take(j - i));
                assert(rest.skip(j - i) =~= chars@.skip(j as int));
                assert(seen.push(line@).drop_last() =~= seen);
                assert(seen + (seq![line@] + spec_lines(chars@.skip(j as int))) =~= seen.push(line@)
                    + spec_lines(chars@.skip(j as int)));
                seen = seen.push(line@);
            }
            put_line(trailers, &line);
            i = j;
        }
    }
    proof {
        assert(spec_lines(chars@.skip(i as int)) =~= Seq::empty());
        assert(seen + Seq::<Seq<char>>::empty() =~= seen);
    }
}

/// Reads a body: the messages in order, and the trailers. A trailer that
/// the body does not give is taken from the header of its name, if there
/// is one.
pub fn parse_grpc_web_response(
    body: &[u8],
    content_type: Option<&str>,
    grpc_status_header: Option<&str>,
    grpc_message_header: Option<&str>,
) -> (r: GrpcWebResponse)
    ensures
        r.trailers.wf(),
        ({
            let decoded = spec_decode_body(
                body@,
                match content_type {
                    Some(ct) => Some(ct@),
                    None => None,
                },
            );
            let frames = spec_frames(decoded, 0);
            let n = frames.len() as int;
            &&& payloads_view(r.messages@) == spec_messages(frames, n)
            &&& spec_text_map(r.trailers@) == spec_or_insert(
                spec_or_insert(
                    spec_frame_trailers(frames, n),
                    "grpc-status"@,
                    match grpc_status_header {
                        Some(h) => Some(h@),
                        None => None,
                    },
                ),
                "grpc-message"@,
                spec_header_message(
                    match grpc_message_header {
                        Some(h) => Some(h@),
                        None => None,
                    },
                ),
            )
        }),
{
    let decoded = maybe_decode_grpc_web_text(body, content_type);
    let mut frames = parse_frames(decoded.as_slice());
    let ghost fv = frames_view(frames@);
    let mut messages: Vec<Vec<u8>> = Vec::new();
    let mut trailers: StringMap<String> = StringMap::new();
    let mut i: usize = 0;
    proof {
        assert(payloads_view(messages@) =~= Seq::empty());
        assert(spec_text_map(trailers@) =~= Map::empty());
    }
    while i < frames.len()
        invariant
            i <= frames.len(),
            fv == frames_view(frames@),
            trailers.wf(),
            payloads_view(messages@) == spec_messages(fv, i as int),
            spec_text_map(trailers@) == spec_frame_trailers(fv, i as int),
        decreases frames.len() - i,
    {
        assert(fv[i as int] == frames[i as int]@);
        if frames[i].flag >= 0x80 {
            parse_trailer_block(&mut trailers, frames[i].payload.as_slice());
        } else {
            let copy = copy_bytes(frames[i].payload.as_slice());
            let ghost prev = payloads_view(messages@);
            messages.push(copy);
            assert(payloads_view(messages@) =~= prev.push(fv[i as int].payload));
        }
        i += 1;
    }
    match grpc_status_header {
        Some(h) => {
            if !trailers.contains_key("grpc-status") {
                put_trailer(&mut trailers, "grpc-status", h.to_owned());
            } else {
                assert(spec_text_map(trailers@).dom().contains("grpc-status"@));
            }
        },
        None => {},
    }
    match grpc_message_header {
        Some(h) => {
            if !trailers.contains_key("grpc-message") {
                let value = match url_decode(h) {
                    Some(d) => d,
                    None => String::new(),
                };
                put_trailer(&mut trailers, "grpc-message", value);
            } else {
                assert(spec_text_map(trailers@).dom().contains("grpc-message"@));
            }
        },
        None => {},
    }
    GrpcWebResponse { messages, trailers }
}

} // verus!
