//! The web UI's HTTP handling: request framing, request-line and query
//! parsing, routing, static file mapping and response headers.

use vstd::prelude::*;
use vstd::utf8::{valid_utf8, decode_utf8};
use crate::text::{
    ascii_lower, chars_eq, decimal, push_decimal, push_str, str_eq, split_words, words, find_char, find_char_from, has_prefix, has_prefix_chars, lines,
    lower_chars, parse_usize, parse_usize_chars, seqs_of, split_chars, split_lines, split_on,
    str_chars, string_from_chars, trim, trim_chars, split_acc,
};

verus! {

/// Characters that `String::from_utf8_lossy` produces for `bytes`.
pub uninterp spec fn utf8_lossy(bytes: Seq<u8>) -> Seq<char>;

/// Calls `String::from_utf8_lossy`. Its contract: the result is `utf8_lossy` of
/// the bytes, and for valid UTF-8 it is the decoded text. How invalid
/// sequences are replaced by U+FFFD is left unsaid.
#[verifier::external_body]
fn decode_lossy(bytes: &[u8]) -> (s: String)
    ensures
        s@ == utf8_lossy(bytes@),
        valid_utf8(bytes@) ==> s@ == decode_utf8(bytes@),
{
    String::from_utf8_lossy(bytes).into_owned()
}

/// The value of a `Content-Length` header line, if `line` is one with a valid value.
pub open spec fn header_line_content_length(line: Seq<char>) -> Option<usize> {
    let lower = ascii_lower(line);
    let p = "content-length:"@;
    if has_prefix(lower, p) {
        parse_usize(trim(lower.subrange(p.len() as int, lower.len() as int)))
    } else {
        None
    }
}

/// The first valid `Content-Length` among `ls`, or 0.
pub open spec fn content_length_in(ls: Seq<Seq<char>>) -> usize
    decreases ls.len(),
{
    if ls.len() == 0 {
        0
    } else {
        match header_line_content_length(ls[0]) {
            Some(v) => v,
            None => content_length_in(ls.drop_first()),
        }
    }
}

/// The declared body length of a header block given as text.
pub open spec fn content_length_of_text(t: Seq<char>) -> usize {
    content_length_in(lines(t))
}

fn line_content_length(line: &[char]) -> (r: Option<usize>)
    ensures
        r == header_line_content_length(line@),
{
    let lower = lower_chars(line);
    let p = str_chars("content-length:");
    if has_prefix_chars(lower.as_slice(), p.as_slice()) {
        let mut rest: Vec<char> = Vec::new();
        let mut i = p.len();
        while i < lower.len()
            invariant
                p@.len() <= i <= lower@.len(),
                rest@ == lower@.subrange(p@.len() as int, i as int),
            decreases lower@.len() - i,
        {
            rest.push(lower[i]);
            i = i + 1;
            assert(rest@ =~= lower@.subrange(p@.len() as int, i as int));
        }
        let t = trim_chars(rest.as_slice());
        parse_usize_chars(t.as_slice())
    } else {
        None
    }
}

/// The body length that a header block declares, read from its text.
pub fn content_length_from_text(text: &str) -> (r: usize)
    ensures
        r == content_length_of_text(text@),
{
    let chars = str_chars(text);
    let ls = split_lines(chars.as_slice());
    let mut i: usize = 0;
    assert(seqs_of(ls@).subrange(0, ls@.len() as int) =~= seqs_of(ls@));
    while i < ls.len()
        invariant
            i <= ls@.len(),
            seqs_of(ls@) == lines(text@),
            content_length_in(lines(text@)) == content_length_in(seqs_of(ls@).subrange(
                i as int,
                ls@.len() as int,
            )),
        decreases ls@.len() - i,
    {
        let ghost rest = seqs_of(ls@).subrange(i as int, ls@.len() as int);
        assert(rest.drop_first() =~= seqs_of(ls@).subrange(i + 1, ls@.len() as int));
        assert(rest[0] == ls@[i as int]@);
        match line_content_length(ls[i].as_slice()) {
            Some(v) => {
                return v;
            },
            None => {},
        }
        i = i + 1;
    }
    0
}

/// The body length that the header bytes declare (`Content-Length`, case-insensitive;
/// 0 when absent or unparsable).
pub fn content_length_from_headers(headers: &[u8]) -> (r: usize)
    ensures
        r == content_length_of_text(utf8_lossy(headers@)),
        valid_utf8(headers@) ==> r == content_length_of_text(decode_utf8(headers@)),
{
    let text = decode_lossy(headers);
    content_length_from_text(text.as_str())
}

/// `\r\n\r\n` starts at position `i` of `b`.
pub open spec fn blank_line_at(b: Seq<u8>, i: int) -> bool {
    0 <= i && i + 4 <= b.len() && b[i] == 13 && b[i + 1] == 10 && b[i + 2] == 13 && b[i + 3]
        == 10
}

/// Position of the first `\r\n\r\n` in `b`.
#[verifier::opaque]
pub open spec fn header_terminator(b: Seq<u8>) -> Option<int> {
    if exists|i: int| blank_line_at(b, i) {
        Some(choose|i: int| blank_line_at(b, i) && forall|j: int| 0 <= j < i ==> !blank_line_at(b, j))
    } else {
        None
    }
}

proof fn lemma_header_terminator_is(b: Seq<u8>, i: int)
    requires
        blank_line_at(b, i),
        forall|j: int| 0 <= j < i ==> !blank_line_at(b, j),
    ensures
        header_terminator(b) == Some(i),
{
    reveal(header_terminator);
    let k = choose|k: int| blank_line_at(b, k) && forall|j: int| 0 <= j < k ==> !blank_line_at(b, j);
    assert(blank_line_at(b, k) && forall|j: int| 0 <= j < k ==> !blank_line_at(b, j));
    if k < i {
        assert(!blank_line_at(b, k));
    }
    if i < k {
        assert(!blank_line_at(b, i));
    }
}

/// Finds the first `\r\n\r\n` in `b`.
pub fn find_header_terminator(b: &[u8]) -> (r: Option<usize>)
    ensures
        match r {
            Some(i) => header_terminator(b@) == Some(i as int),
            None => header_terminator(b@) is None,
        },
{
    let n = b.len();
    if n < 4 {
        assert(!exists|i: int| blank_line_at(b@, i));
        proof {
            reveal(header_terminator);
        }
        return None;
    }
    let mut i: usize = 0;
    while i <= n - 4
        invariant
            n == b@.len(),
            n >= 4,
            i <= n - 3,
            forall|j: int| 0 <= j < i ==> !blank_line_at(b@, j),
        decreases n - i,
    {
        if b[i] == 13 && b[i + 1] == 10 && b[i + 2] == 13 && b[i + 3] == 10 {
            proof {
                lemma_header_terminator_is(b@, i as int);
            }
            return Some(i);
        }
        i = i + 1;
    }
    assert(!exists|j: int| blank_line_at(b@, j)) by {
        assert forall|j: int| !blank_line_at(b@, j) by {
            if 0 <= j < i {
            }
        }
    }
    proof {
        reveal(header_terminator);
    }
    None
}

/// The body of a request: the bytes after the first `\r\n\r\n`, or none.
pub open spec fn request_body(b: Seq<u8>) -> Seq<u8> {
    match header_terminator(b) {
        Some(i) => b.subrange(i + 4, b.len() as int),
        None => Seq::empty(),
    }
}

/// The bytes of a request after its header block.
pub fn request_body_bytes(request: &[u8]) -> (r: Vec<u8>)
    ensures
        r@ == request_body(request@),
{
    match find_header_terminator(request) {
        Some(i) => {
            proof {
                lemma_terminator_blank(request@, i as int);
            }
            let n = request.len();
            copy_bytes(request, i + 4, n)
        },
        None => Vec::new(),
    }
}

proof fn lemma_terminator_blank(b: Seq<u8>, i: int)
    requires
        header_terminator(b) == Some(i),
    ensures
        blank_line_at(b, i),
{
    reveal(header_terminator);
    lemma_first_blank_line_exists(b);
}

proof fn lemma_first_blank_line_exists(b: Seq<u8>)
    requires
        exists|i: int| blank_line_at(b, i),
    ensures
        exists|i: int| blank_line_at(b, i) && forall|j: int| 0 <= j < i ==> !blank_line_at(b, j),
{
    let w = choose|i: int| blank_line_at(b, i);
    lemma_first_blank_line_below(b, w);
}

proof fn lemma_first_blank_line_below(b: Seq<u8>, w: int)
    requires
        blank_line_at(b, w),
    ensures
        exists|i: int| blank_line_at(b, i) && forall|j: int| 0 <= j < i ==> !blank_line_at(b, j),
    decreases w,
{
    if exists|j: int| 0 <= j < w && blank_line_at(b, j) {
        let j = choose|j: int| 0 <= j < w && blank_line_at(b, j);
        lemma_first_blank_line_below(b, j);
    } else {
        assert(blank_line_at(b, w) && forall|j: int| 0 <= j < w ==> !blank_line_at(b, j));
    }
}

/// A copy of `b[from..to]`.
pub fn copy_bytes(b: &[u8], from: usize, to: usize) -> (r: Vec<u8>)
    requires
        from <= to <= b@.len(),
    ensures
        r@ == b@.subrange(from as int, to as int),
{
    let mut out: Vec<u8> = Vec::new();
    let mut k = from;
    while k < to
        invariant
            from <= k <= to <= b@.len(),
            out@ == b@.subrange(from as int, k as int),
        decreases to - k,
    {
        out.push(b[k]);
        k = k + 1;
        assert(out@ =~= b@.subrange(from as int, k as int));
    }
    out
}

/// How far a request has been read.
#[derive(Debug, Clone, Copy, PartialEq, Eq, Structural)]
pub enum RequestProgress {
    /// The whole request is present; it ends at this length.
    Complete(usize),
    /// More bytes are needed.
    Incomplete,
    /// The request exceeds the size limit.
    TooLarge,
}

/// Largest request the web UI reads.
pub const MAX_REQUEST_BYTES: usize = 2_000_000;

/// Progress of a request of `len` bytes whose headers end at `header_end`
/// (just after `\r\n\r\n`) and declare `body_len` body bytes.
pub open spec fn progress_spec(len: int, header_end: Option<int>, body_len: int) -> RequestProgress {
    match header_end {
        Some(end) => if len >= end + body_len {
            RequestProgress::Complete((end + body_len) as usize)
        } else if len > MAX_REQUEST_BYTES {
            RequestProgress::TooLarge
        } else {
            RequestProgress::Incomplete
        },
        None => if len > MAX_REQUEST_BYTES {
            RequestProgress::TooLarge
        } else {
            RequestProgress::Incomplete
        },
    }
}

/// Decides whether reading can stop, given what is known of the request so far.
pub fn progress_from_parts(len: usize, header_end: Option<usize>, body_len: usize) -> (r:
    RequestProgress)
    requires
        header_end matches Some(end) ==> end <= len,
    ensures
        r == progress_spec(
            len as int,
            match header_end {
                Some(e) => Some(e as int),
                None => None,
            },
            body_len as int,
        ),
{
    match header_end {
        Some(end) => {
            if body_len <= len - end {
                RequestProgress::Complete(end + body_len)
            } else if len > MAX_REQUEST_BYTES {
                RequestProgress::TooLarge
            } else {
                RequestProgress::Incomplete
            }
        },
        None => {
            if len > MAX_REQUEST_BYTES {
                RequestProgress::TooLarge
            } else {
                RequestProgress::Incomplete
            }
        },
    }
}

/// Progress of reading the request whose bytes so far are `b`.
pub open spec fn request_progress_spec(b: Seq<u8>) -> RequestProgress {
    match header_terminator(b) {
        Some(i) => progress_spec(
            b.len() as int,
            Some(i + 4),
            content_length_of_text(utf8_lossy(b.subrange(0, i + 4))) as int,
        ),
        None => progress_spec(b.len() as int, None, 0),
    }
}

/// Whether the request read so far is complete, still incomplete or too large.
pub fn request_progress(request: &[u8]) -> (r: RequestProgress)
    ensures
        r == request_progress_spec(request@),
{
    match find_header_terminator(request) {
        Some(i) => {
            proof {
                lemma_terminator_blank(request@, i as int);
            }
            let n = request.len();
            let end = i + 4;
            let head = copy_bytes(request, 0, end);
            let body_len = content_length_from_headers(head.as_slice());
            progress_from_parts(request.len(), Some(end), body_len)
        },
        None => progress_from_parts(request.len(), None, 0),
    }
}

pub open spec fn opt_view(o: Option<String>) -> Option<Seq<char>> {
    match o {
        Some(s) => Some(s@),
        None => None,
    }
}

/// The path part of a raw request target (before the first `?`).
pub open spec fn target_path(raw: Seq<char>) -> Seq<char> {
    raw.subrange(0, find_char(raw, '?'))
}

/// The query part of a raw request target (after the first `?`), if any.
pub open spec fn target_query(raw: Seq<char>) -> Option<Seq<char>> {
    let i = find_char(raw, '?');
    if i < raw.len() {
        Some(raw.subrange(i + 1, raw.len() as int))
    } else {
        None
    }
}

proof fn lemma_find_char_bound(s: Seq<char>, c: char)
    ensures
        0 <= find_char(s, c) <= s.len(),
        find_char(s, c) < s.len() ==> s[find_char(s, c)] == c,
        forall|k: int| 0 <= k < find_char(s, c) ==> s[k] != c,
    decreases s.len(),
{
    if s.len() > 0 && s[0] != c {
        lemma_find_char_bound(s.drop_first(), c);
        assert forall|k: int| 0 <= k < find_char(s, c) implies s[k] != c by {
            if k > 0 {
                assert(s[k] == s.drop_first()[k - 1]);
            }
        }
    }
}

fn slice_to_vec_range(s: &[char], from: usize, to: usize) -> (r: Vec<char>)
    requires
        from <= to <= s@.len(),
    ensures
        r@ == s@.subrange(from as int, to as int),
{
    let mut r: Vec<char> = Vec::new();
    let mut k = from;
    while k < to
        invariant
            from <= k <= to <= s@.len(),
            r@ == s@.subrange(from as int, k as int),
        decreases to - k,
    {
        r.push(s[k]);
        k = k + 1;
        assert(r@ =~= s@.subrange(from as int, k as int));
    }
    r
}

/// Splits a request target into its path and optional query string.
pub fn split_request_path(raw_path: &str) -> (r: (String, Option<String>))
    ensures
        r.0@ == target_path(raw_path@),
        opt_view(r.1) == target_query(raw_path@),
{
    let chars = str_chars(raw_path);
    let i = find_char_from(chars.as_slice(), 0, '?');
    assert(chars@.subrange(0, chars@.len() as int) =~= chars@);
    proof {
        lemma_find_char_bound(raw_path@, '?');
    }
    let path = slice_to_vec_range(chars.as_slice(), 0, i);
    if i < chars.len() {
        let q = slice_to_vec_range(chars.as_slice(), i + 1, chars.len());
        (string_from_chars(path.as_slice()), Some(string_from_chars(q.as_slice())))
    } else {
        (string_from_chars(path.as_slice()), None)
    }
}

/// Key of a `key=value` query piece (the whole piece when there is no `=`).
pub open spec fn pair_key(part: Seq<char>) -> Seq<char> {
    part.subrange(0, find_char(part, '='))
}

/// Value of a `key=value` query piece (empty when there is no `=`).
pub open spec fn pair_value(part: Seq<char>) -> Seq<char> {
    let i = find_char(part, '=');
    if i < part.len() {
        part.subrange(i + 1, part.len() as int)
    } else {
        Seq::empty()
    }
}

/// Value of the first piece among `parts` whose key is `key`.
pub open spec fn lookup_param(parts: Seq<Seq<char>>, key: Seq<char>) -> Option<Seq<char>>
    decreases parts.len(),
{
    if parts.len() == 0 {
        None
    } else if pair_key(parts[0]) == key {
        Some(pair_value(parts[0]))
    } else {
        lookup_param(parts.drop_first(), key)
    }
}

/// The value of query parameter `key` (first occurrence, no percent-decoding).
pub open spec fn query_param_spec(query: Option<Seq<char>>, key: Seq<char>) -> Option<Seq<char>> {
    match query {
        Some(q) => lookup_param(split_on(q, '&'), key),
        None => None,
    }
}

/// Looks up a query parameter by exact key.
pub fn query_param(query: Option<&str>, key: &str) -> (r: Option<String>)
    ensures
        opt_view(r) == query_param_spec(
            match query {
                Some(q) => Some(q@),
                None => None,
            },
            key@,
        ),
{
    match query {
        Some(q) => query_lookup(q, key),
        None => None,
    }
}

fn query_lookup(q: &str, key: &str) -> (r: Option<String>)
    ensures
        opt_view(r) == lookup_param(split_on(q@, '&'), key@),
{
    let qc = str_chars(q);
    let kc = str_chars(key);
    let parts = split_chars(qc.as_slice(), '&');
    let mut i: usize = 0;
    assert(seqs_of(parts@).subrange(0, parts@.len() as int) =~= seqs_of(parts@));
    while i < parts.len()
        invariant
            i <= parts@.len(),
            seqs_of(parts@) == split_on(q@, '&'),
            kc@ == key@,
            lookup_param(split_on(q@, '&'), key@) == lookup_param(
                seqs_of(parts@).subrange(i as int, parts@.len() as int),
                key@,
            ),
        decreases parts@.len() - i,
    {
        let ghost rest = seqs_of(parts@).subrange(i as int, parts@.len() as int);
        assert(rest.drop_first() =~= seqs_of(parts@).subrange(i + 1, parts@.len() as int));
        let part = parts[i].as_slice();
        assert(rest[0] == part@);
        let eq = find_char_from(part, 0, '=');
        assert(part@.subrange(0, part@.len() as int) =~= part@);
        proof {
            lemma_find_char_bound(part@, '=');
        }
        let k = slice_to_vec_range(part, 0, eq);
        assert(k@ == pair_key(part@));
        if chars_eq(k.as_slice(), kc.as_slice()) {
            assert(lookup_param(rest, key@) == Some(pair_value(part@)));
            if eq < part.len() {
                let v = slice_to_vec_range(part, eq + 1, part.len());
                assert(v@ == pair_value(part@));
                let out = string_from_chars(v.as_slice());
                assert(opt_view(Some(out)) == Some(pair_value(part@)));
                return Some(out);
            } else {
                let ghost e = pair_value(part@);
                assert(e =~= Seq::<char>::empty());
                let v: Vec<char> = Vec::new();
                let out = string_from_chars(v.as_slice());
                assert(opt_view(Some(out)) == Some(pair_value(part@)));
                return Some(out);
            }
        }
        i = i + 1;
    }
    None
}


/// The request line: the first line of the request text, or empty.
pub open spec fn request_line(text: Seq<char>) -> Seq<char> {
    let ls = lines(text);
    if ls.len() > 0 {
        ls[0]
    } else {
        Seq::empty()
    }
}

/// The method token of a request (default `GET`).
pub open spec fn request_method(text: Seq<char>) -> Seq<char> {
    let ws = words(request_line(text));
    if ws.len() > 0 {
        ws[0]
    } else {
        "GET"@
    }
}

/// The raw target token of a request (default `/`).
pub open spec fn request_target(text: Seq<char>) -> Seq<char> {
    let ws = words(request_line(text));
    if ws.len() > 1 {
        ws[1]
    } else {
        "/"@
    }
}

/// Method and raw target of a request given as text.
pub fn request_line_parts(text: &str) -> (r: (String, String))
    ensures
        r.0@ == request_method(text@),
        r.1@ == request_target(text@),
{
    let chars = str_chars(text);
    let ls = split_lines(chars.as_slice());
    let first: Vec<char> = if ls.len() > 0 {
        ls[0].clone()
    } else {
        Vec::new()
    };
    proof {
        if ls@.len() > 0 {
            assert(seqs_of(ls@)[0] == ls@[0]@);
        }
        assert(first@ == request_line(text@));
    }
    let ws = split_words(first.as_slice());
    let method = if ws.len() > 0 {
        assert(seqs_of(ws@)[0] == ws@[0]@);
        string_from_chars(ws[0].as_slice())
    } else {
        String::from_str("GET")
    };
    let target = if ws.len() > 1 {
        assert(seqs_of(ws@)[1] == ws@[1]@);
        string_from_chars(ws[1].as_slice())
    } else {
        String::from_str("/")
    };
    (method, target)
}

/// Method and raw target of the request whose bytes are `request`.
pub fn parse_request_line(request: &[u8]) -> (r: (String, String))
    ensures
        r.0@ == request_method(utf8_lossy(request@)),
        r.1@ == request_target(utf8_lossy(request@)),
        valid_utf8(request@) ==> r.0@ == request_method(decode_utf8(request@)) && r.1@
            == request_target(decode_utf8(request@)),
{
    let text = decode_lossy(request);
    request_line_parts(text.as_str())
}

/// What the web UI does with a request.
#[derive(Debug, Clone, Copy, PartialEq, Eq, Structural)]
pub enum Route {
    Health,
    State,
    Meta,
    InterfaceCapabilities,
    ScanSetupRead,
    ScanSetupWrite,
    ScanStart,
    ScanStartCustom,
    ScanStop,
    InterfaceSelect,
    WatchlistAdd,
    WatchlistDelete,
    ApLock,
    BluetoothEnumerate,
    MethodNotAllowed,
    StaticFile,
}

/// The route for a method and path.
pub open spec fn route_spec(method: Seq<char>, path: Seq<char>) -> Route {
    if method == "GET"@ && path == "/api/health"@ {
        Route::Health
    } else if method == "GET"@ && path == "/api/state"@ {
        Route::State
    } else if method == "GET"@ && path == "/api/meta"@ {
        Route::Meta
    } else if method == "GET"@ && path == "/api/interface/capabilities"@ {
        Route::InterfaceCapabilities
    } else if method == "GET"@ && path == "/api/scan/setup"@ {
        Route::ScanSetupRead
    } else if method == "POST"@ && path == "/api/scan/setup"@ {
        Route::ScanSetupWrite
    } else if method == "POST"@ && path == "/api/scan/start"@ {
        Route::ScanStart
    } else if method == "POST"@ && path == "/api/scan/start_custom"@ {
        Route::ScanStartCustom
    } else if method == "POST"@ && path == "/api/scan/stop"@ {
        Route::ScanStop
    } else if method == "POST"@ && path == "/api/interface/select"@ {
        Route::InterfaceSelect
    } else if method == "POST"@ && path == "/api/watchlist/add"@ {
        Route::WatchlistAdd
    } else if method == "POST"@ && path == "/api/watchlist/delete"@ {
        Route::WatchlistDelete
    } else if method == "POST"@ && path == "/api/ap/lock"@ {
        Route::ApLock
    } else if method == "POST"@ && path == "/api/bluetooth/enumerate"@ {
        Route::BluetoothEnumerate
    } else if method != "GET"@ {
        Route::MethodNotAllowed
    } else {
        Route::StaticFile
    }
}

/// Chooses the handler for a request.
pub fn route_request(method: &str, path: &str) -> (r: Route)
    ensures
        r == route_spec(method@, path@),
{
    let get = str_eq(method, "GET");
    let post = str_eq(method, "POST");
    if get && str_eq(path, "/api/health") {
        Route::Health
    } else if get && str_eq(path, "/api/state") {
        Route::State
    } else if get && str_eq(path, "/api/meta") {
        Route::Meta
    } else if get && str_eq(path, "/api/interface/capabilities") {
        Route::InterfaceCapabilities
    } else if get && str_eq(path, "/api/scan/setup") {
        Route::ScanSetupRead
    } else if post && str_eq(path, "/api/scan/setup") {
        Route::ScanSetupWrite
    } else if post && str_eq(path, "/api/scan/start") {
        Route::ScanStart
    } else if post && str_eq(path, "/api/scan/start_custom") {
        Route::ScanStartCustom
    } else if post && str_eq(path, "/api/scan/stop") {
        Route::ScanStop
    } else if post && str_eq(path, "/api/interface/select") {
        Route::InterfaceSelect
    } else if post && str_eq(path, "/api/watchlist/add") {
        Route::WatchlistAdd
    } else if post && str_eq(path, "/api/watchlist/delete") {
        Route::WatchlistDelete
    } else if post && str_eq(path, "/api/ap/lock") {
        Route::ApLock
    } else if post && str_eq(path, "/api/bluetooth/enumerate") {
        Route::BluetoothEnumerate
    } else if !get {
        Route::MethodNotAllowed
    } else {
        Route::StaticFile
    }
}

/// The header block of a response with `body_len` body bytes.
pub open spec fn response_header(code: u16, reason: Seq<char>, content_type: Seq<char>, body_len: usize) -> Seq<char> {
    "HTTP/1.1 "@ + decimal(code as nat) + " "@ + reason + "\r\nContent-Type: "@ + content_type
        + "\r\nContent-Length: "@ + decimal(body_len as nat) + "\r\nConnection: close\r\n\r\n"@
}

/// Renders the header block of a response.
pub fn response_header_text(code: u16, reason: &str, content_type: &str, body_len: usize) -> (r:
    String)
    ensures
        r@ == response_header(code, reason@, content_type@, body_len),
{
    let mut out: Vec<char> = Vec::new();
    push_str(&mut out, "HTTP/1.1 ");
    push_decimal(&mut out, code as u64);
    push_str(&mut out, " ");
    push_str(&mut out, reason);
    push_str(&mut out, "\r\nContent-Type: ");
    push_str(&mut out, content_type);
    push_str(&mut out, "\r\nContent-Length: ");
    push_decimal(&mut out, body_len as u64);
    push_str(&mut out, "\r\nConnection: close\r\n\r\n");
    assert(out@ =~= response_header(code, reason@, content_type@, body_len));
    string_from_chars(out.as_slice())
}


/// The last path component that names something (empty and `.` segments are skipped).
pub open spec fn last_named(segs: Seq<Seq<char>>) -> Option<Seq<char>>
    decreases segs.len(),
{
    if segs.len() == 0 {
        None
    } else if segs.last().len() == 0 || segs.last() == "."@ {
        last_named(segs.drop_last())
    } else {
        Some(segs.last())
    }
}

/// `Path::file_name` for a `/`-separated path.
pub open spec fn file_name(p: Seq<char>) -> Option<Seq<char>> {
    match last_named(split_on(p, '/')) {
        Some(l) => if l == ".."@ {
            None
        } else {
            Some(l)
        },
        None => None,
    }
}

/// Index of the last `.` in `f`, or -1.
pub open spec fn last_dot(f: Seq<char>) -> int
    decreases f.len(),
{
    if f.len() == 0 {
        -1
    } else if f.last() == '.' {
        f.len() - 1
    } else {
        last_dot(f.drop_last())
    }
}

/// `Path::extension`, with "no extension" written as the empty sequence.
pub open spec fn extension(p: Seq<char>) -> Seq<char> {
    match file_name(p) {
        Some(f) => {
            let d = last_dot(f);
            if d <= 0 {
                Seq::empty()
            } else {
                f.subrange(d + 1, f.len() as int)
            }
        },
        None => Seq::empty(),
    }
}

/// The content type served for a file extension.
pub open spec fn mime_for_extension(ext: Seq<char>) -> Seq<char> {
    if ext == "html"@ {
        "text/html; charset=utf-8"@
    } else if ext == "css"@ {
        "text/css; charset=utf-8"@
    } else if ext == "js"@ {
        "application/javascript; charset=utf-8"@
    } else if ext == "svg"@ {
        "image/svg+xml"@
    } else if ext == "ico"@ {
        "image/x-icon"@
    } else if ext == "png"@ {
        "image/png"@
    } else if ext == "jpg"@ || ext == "jpeg"@ {
        "image/jpeg"@
    } else if ext == "gif"@ {
        "image/gif"@
    } else if ext == "json"@ || ext == "map"@ {
        "application/json; charset=utf-8"@
    } else if ext == "woff"@ {
        "font/woff"@
    } else if ext == "woff2"@ {
        "font/woff2"@
    } else if ext == "ttf"@ {
        "font/ttf"@
    } else {
        "application/octet-stream"@
    }
}

fn last_named_exec(segs: &Vec<Vec<char>>) -> (r: Option<usize>)
    ensures
        match r {
            Some(k) => k < segs@.len() && last_named(seqs_of(segs@)) == Some(segs@[k as int]@),
            None => last_named(seqs_of(segs@)) is None,
        },
{
    let dot = str_chars(".");
    let mut k = segs.len();
    assert(seqs_of(segs@).subrange(0, segs@.len() as int) =~= seqs_of(segs@));
    while k > 0
        invariant
            k <= segs@.len(),
            dot@ == "."@,
            last_named(seqs_of(segs@)) == last_named(seqs_of(segs@).subrange(0, k as int)),
        decreases k,
    {
        let ghost pre = seqs_of(segs@).subrange(0, k as int);
        assert(pre.drop_last() =~= seqs_of(segs@).subrange(0, k - 1));
        assert(pre.last() == segs@[k - 1]@);
        let seg = segs[k - 1].as_slice();
        if seg.len() == 0 || chars_eq(seg, dot.as_slice()) {
            k = k - 1;
        } else {
            return Some(k - 1);
        }
    }
    assert(seqs_of(segs@).subrange(0, 0) =~= Seq::<Seq<char>>::empty());
    None
}

fn last_dot_exec(f: &[char]) -> (r: Option<usize>)
    ensures
        match r {
            Some(d) => last_dot(f@) == d as int && d < f@.len(),
            None => last_dot(f@) == -1,
        },
{
    let mut k = f.len();
    assert(f@.subrange(0, f@.len() as int) =~= f@);
    while k > 0
        invariant
            k <= f@.len(),
            last_dot(f@) == last_dot(f@.subrange(0, k as int)),
        decreases k,
    {
        let ghost pre = f@.subrange(0, k as int);
        assert(pre.drop_last() =~= f@.subrange(0, k - 1));
        if f[k - 1] == '.' {
            return Some(k - 1);
        }
        k = k - 1;
    }
    None
}

/// The extension of the last path component (empty when it has none).
pub fn path_extension(path: &str) -> (r: Vec<char>)
    ensures
        r@ == extension(path@),
{
    let chars = str_chars(path);
    let segs = split_chars(chars.as_slice(), '/');
    let up = str_chars("..");
    match last_named_exec(&segs) {
        Some(k) => {
            let f = segs[k].as_slice();
            let flen = f.len();
            if chars_eq(f, up.as_slice()) {
                Vec::new()
            } else {
                match last_dot_exec(f) {
                    Some(d) => {
                        if d == 0 {
                            Vec::new()
                        } else {
                            let mut out: Vec<char> = Vec::new();
                            let mut i = d + 1;
                            while i < f.len()
                                invariant
                                    d + 1 <= i <= f@.len(),
                                    out@ == f@.subrange(d + 1, i as int),
                                decreases f@.len() - i,
                            {
                                out.push(f[i]);
                                i = i + 1;
                                assert(out@ =~= f@.subrange(d + 1, i as int));
                            }
                            out
                        }
                    },
                    None => Vec::new(),
                }
            }
        },
        None => Vec::new(),
    }
}

/// The content type for a file path, chosen by its extension.
pub fn mime_for(path: &str) -> (r: &'static str)
    ensures
        r@ == mime_for_extension(extension(path@)),
{
    let ext = path_extension(path);
    let e = ext.as_slice();
    let is = |lit: &str| -> (b: bool)
        ensures
            b == (e@ == lit@),
        {
            let l = str_chars(lit);
            chars_eq(e, l.as_slice())
        };
    if is("html") {
        "text/html; charset=utf-8"
    } else if is("css") {
        "text/css; charset=utf-8"
    } else if is("js") {
        "application/javascript; charset=utf-8"
    } else if is("svg") {
        "image/svg+xml"
    } else if is("ico") {
        "image/x-icon"
    } else if is("png") {
        "image/png"
    } else if is("jpg") || is("jpeg") {
        "image/jpeg"
    } else if is("gif") {
        "image/gif"
    } else if is("json") || is("map") {
        "application/json; charset=utf-8"
    } else if is("woff") {
        "font/woff"
    } else if is("woff2") {
        "font/woff2"
    } else if is("ttf") {
        "font/ttf"
    } else {
        "application/octet-stream"
    }
}

/// `s` without its leading `/` characters (`trim_start_matches('/')`).
pub open spec fn strip_leading_slashes(s: Seq<char>) -> Seq<char>
    decreases s.len(),
{
    if s.len() > 0 && s[0] == '/' {
        strip_leading_slashes(s.drop_first())
    } else {
        s
    }
}

/// A file the static server answers with.
#[derive(Debug, Clone, PartialEq, Eq)]
pub enum ServedFile {
    /// `<ui root>/dist/index.html`.
    DistIndex,
    /// `<ui root>/index.html`.
    RootIndex,
    /// `<ui root>/dist/<relative path>`.
    DistFile(String),
    /// `<ui root>/<relative path>`.
    RootFile(String),
}

pub ghost enum ServedFileView {
    DistIndex,
    RootIndex,
    DistFile(Seq<char>),
    RootFile(Seq<char>),
}

impl View for ServedFile {
    type V = ServedFileView;

    open spec fn view(&self) -> ServedFileView {
        match self {
            ServedFile::DistIndex => ServedFileView::DistIndex,
            ServedFile::RootIndex => ServedFileView::RootIndex,
            ServedFile::DistFile(p) => ServedFileView::DistFile(p@),
            ServedFile::RootFile(p) => ServedFileView::RootFile(p@),
        }
    }
}

/// The request path relative to the UI root (leading slashes removed).
pub open spec fn static_relative(request_path: Seq<char>) -> Seq<char> {
    strip_leading_slashes(request_path)
}

/// Whether a relative path has a `..` component.
pub open spec fn has_parent_component(rel: Seq<char>) -> bool {
    split_on(rel, '/').contains(".."@)
}

/// The file served for `request_path`, given whether the candidate files exist:
/// `dist_index_exists` for `dist/index.html`, `dist_candidate_exists` and
/// `root_candidate_exists` for the relative path under `dist/` and under the root.
pub open spec fn map_path_spec(
    request_path: Seq<char>,
    dist_index_exists: bool,
    dist_candidate_exists: bool,
    root_candidate_exists: bool,
) -> ServedFileView {
    let rel = static_relative(request_path);
    if rel.len() == 0 {
        if dist_index_exists {
            ServedFileView::DistIndex
        } else {
            ServedFileView::RootIndex
        }
    } else if has_parent_component(rel) {
        ServedFileView::RootIndex
    } else if dist_candidate_exists {
        ServedFileView::DistFile(rel)
    } else if root_candidate_exists {
        ServedFileView::RootFile(rel)
    } else if dist_index_exists {
        ServedFileView::DistIndex
    } else {
        ServedFileView::RootIndex
    }
}

/// The request path relative to the UI root, as served files are looked up.
pub fn static_relative_path(request_path: &str) -> (r: String)
    ensures
        r@ == static_relative(request_path@),
{
    let chars = str_chars(request_path);
    let mut i: usize = 0;
    assert(chars@.subrange(0, chars@.len() as int) =~= chars@);
    while i < chars.len() && chars[i] == '/'
        invariant
            i <= chars@.len(),
            strip_leading_slashes(chars@) == strip_leading_slashes(
                chars@.subrange(i as int, chars@.len() as int),
            ),
        decreases chars@.len() - i,
    {
        assert(chars@.subrange(i as int, chars@.len() as int).drop_first() =~= chars@.subrange(
            i + 1,
            chars@.len() as int,
        ));
        i = i + 1;
    }
    let rest = slice_to_vec_range(chars.as_slice(), i, chars.len());
    string_from_chars(rest.as_slice())
}

/// Whether the relative path `rel` has a `..` component.
pub fn has_parent_path_component(rel: &str) -> (r: bool)
    ensures
        r == has_parent_component(rel@),
{
    let rc = str_chars(rel);
    let segs = split_chars(rc.as_slice(), '/');
    let up = str_chars("..");
    let mut i: usize = 0;
    let mut parent = false;
    while i < segs.len()
        invariant
            i <= segs@.len(),
            up@ == ".."@,
            parent ==> seqs_of(segs@).contains(".."@),
            !parent ==> forall|k: int| 0 <= k < i ==> seqs_of(segs@)[k] != ".."@,
        decreases segs@.len() - i,
    {
        if chars_eq(segs[i].as_slice(), up.as_slice()) {
            assert(seqs_of(segs@)[i as int] == ".."@);
            parent = true;
        }
        i = i + 1;
    }
    parent
}

/// Maps a request path to the static file to serve. Paths with a `..`
/// component are answered with the root index page.
pub fn map_path(
    request_path: &str,
    dist_index_exists: bool,
    dist_candidate_exists: bool,
    root_candidate_exists: bool,
) -> (r: ServedFile)
    ensures
        r@ == map_path_spec(
            request_path@,
            dist_index_exists,
            dist_candidate_exists,
            root_candidate_exists,
        ),
{
    let rel = static_relative_path(request_path);
    let rc = str_chars(rel.as_str());
    if rc.len() == 0 {
        return if dist_index_exists {
            ServedFile::DistIndex
        } else {
            ServedFile::RootIndex
        };
    }
    let parent = has_parent_path_component(rel.as_str());
    if parent {
        ServedFile::RootIndex
    } else if dist_candidate_exists {
        ServedFile::DistFile(rel)
    } else if root_candidate_exists {
        ServedFile::RootFile(rel)
    } else if dist_index_exists {
        ServedFile::DistIndex
    } else {
        ServedFile::RootIndex
    }
}


proof fn lemma_split_without_separator(s: Seq<char>, sep: char, cur: Seq<char>, acc: Seq<Seq<char>>)
    requires
        forall|k: int| 0 <= k < s.len() ==> s[k] != sep,
    ensures
        split_acc(s, sep, cur, acc) == acc.push(cur + s),
    decreases s.len(),
{
    if s.len() == 0 {
        assert(cur + s =~= cur);
    } else {
        lemma_split_without_separator(s.drop_first(), sep, cur.push(s[0]), acc);
        assert(cur.push(s[0]) + s.drop_first() =~= cur + s);
    }
}

proof fn lemma_split_last_piece(s: Seq<char>, sep: char, cur: Seq<char>, acc: Seq<Seq<char>>, j: int)
    requires
        0 <= j < s.len(),
        s[j] == sep,
        forall|k: int| j < k < s.len() ==> s[k] != sep,
    ensures
        split_acc(s, sep, cur, acc).len() > 0,
        split_acc(s, sep, cur, acc).last() == s.subrange(j + 1, s.len() as int),
    decreases s.len(),
{
    let rest = s.drop_first();
    if j == 0 {
        lemma_split_without_separator(rest, sep, Seq::empty(), acc.push(cur));
        assert(Seq::<char>::empty() + rest =~= s.subrange(1, s.len() as int));
    } else {
        assert(rest.subrange(j, rest.len() as int) =~= s.subrange(j + 1, s.len() as int));
        if s[0] == sep {
            lemma_split_last_piece(rest, sep, Seq::empty(), acc.push(cur), j - 1);
        } else {
            lemma_split_last_piece(rest, sep, cur.push(s[0]), acc, j - 1);
        }
    }
}

proof fn lemma_last_dot_past_plain_tail(s: Seq<char>, t: Seq<char>)
    requires
        forall|k: int| 0 <= k < t.len() ==> t[k] != '.',
    ensures
        last_dot(s + t) == last_dot(s),
    decreases t.len(),
{
    if t.len() == 0 {
        assert(s + t =~= s);
    } else {
        assert((s + t).drop_last() =~= s + t.drop_last());
        assert((s + t).last() == t.last());
        lemma_last_dot_past_plain_tail(s, t.drop_last());
    }
}

/// The extension of a file named `stem.ext`, alone or under a directory,
/// is `ext`, when the stem is not empty, neither holds a `/` and the
/// extension holds no `.`.
pub proof fn lemma_extension_of_named_file(dir: Seq<char>, stem: Seq<char>, ext: Seq<char>)
    requires
        stem.len() > 0,
        ext.len() > 0,
        forall|k: int| 0 <= k < stem.len() ==> stem[k] != '/',
        forall|k: int| 0 <= k < ext.len() ==> ext[k] != '/' && ext[k] != '.',
    ensures
        extension(stem + seq!['.'] + ext) == ext,
        extension(dir + seq!['/'] + stem + seq!['.'] + ext) == ext,
{
    reveal_strlit(".");
    reveal_strlit("..");
    let f = stem + seq!['.'] + ext;
    assert forall|k: int| 0 <= k < f.len() implies f[k] != '/' by {
        if k < stem.len() {
            assert(f[k] == stem[k]);
        } else if k > stem.len() {
            assert(f[k] == ext[k - stem.len() - 1]);
        }
    }
    assert(f.len() >= 3);
    assert(f != "."@ && f != ".."@);
    assert(last_dot(stem + seq!['.']) == stem.len()) by {
        assert((stem + seq!['.']).last() == '.');
    }
    lemma_last_dot_past_plain_tail(stem + seq!['.'], ext);
    assert(stem + seq!['.'] + ext =~= f);
    assert(f.subrange(stem.len() as int + 1, f.len() as int) =~= ext);
    lemma_split_without_separator(f, '/', Seq::empty(), Seq::empty());
    assert(Seq::<char>::empty() + f =~= f);
    assert(split_on(f, '/') =~= seq![f]);
    assert(seq![f].drop_last() =~= Seq::<Seq<char>>::empty());
    let p = dir + seq!['/'] + stem + seq!['.'] + ext;
    assert(p =~= dir + seq!['/'] + f);
    assert forall|k: int| dir.len() < k < p.len() implies p[k] != '/' by {
        assert(p[k] == f[k - dir.len() - 1]);
    }
    lemma_split_last_piece(p, '/', Seq::empty(), Seq::empty(), dir.len() as int);
    assert(p.subrange(dir.len() as int + 1, p.len() as int) =~= f);
}

/// The content type each known extension is served with; any other is
/// served as `application/octet-stream`.
pub proof fn lemma_content_type_table(ext: Seq<char>)
    ensures
        ext == "html"@ ==> mime_for_extension(ext) == "text/html; charset=utf-8"@,
        ext == "css"@ ==> mime_for_extension(ext) == "text/css; charset=utf-8"@,
        ext == "js"@ ==> mime_for_extension(ext) == "application/javascript; charset=utf-8"@,
        ext == "svg"@ ==> mime_for_extension(ext) == "image/svg+xml"@,
        ext == "ico"@ ==> mime_for_extension(ext) == "image/x-icon"@,
        ext == "png"@ ==> mime_for_extension(ext) == "image/png"@,
        ext == "jpg"@ ==> mime_for_extension(ext) == "image/jpeg"@,
        ext == "jpeg"@ ==> mime_for_extension(ext) == "image/jpeg"@,
        ext == "gif"@ ==> mime_for_extension(ext) == "image/gif"@,
        ext == "json"@ ==> mime_for_extension(ext) == "application/json; charset=utf-8"@,
        ext == "map"@ ==> mime_for_extension(ext) == "application/json; charset=utf-8"@,
        ext == "woff"@ ==> mime_for_extension(ext) == "font/woff"@,
        ext == "woff2"@ ==> mime_for_extension(ext) == "font/woff2"@,
        ext == "ttf"@ ==> mime_for_extension(ext) == "font/ttf"@,
        !(ext == "html"@ || ext == "css"@ || ext == "js"@ || ext == "svg"@ || ext == "ico"@ || ext
            == "png"@ || ext == "jpg"@ || ext == "jpeg"@ || ext == "gif"@ || ext == "json"@ || ext
            == "map"@ || ext == "woff"@ || ext == "woff2"@ || ext == "ttf"@) ==> mime_for_extension(
            ext,
        ) == "application/octet-stream"@,
{
    reveal_strlit("html");
    reveal_strlit("css");
    reveal_strlit("js");
    reveal_strlit("svg");
    reveal_strlit("ico");
    reveal_strlit("png");
    reveal_strlit("jpg");
    reveal_strlit("jpeg");
    reveal_strlit("gif");
    reveal_strlit("json");
    reveal_strlit("map");
    reveal_strlit("woff");
    reveal_strlit("woff2");
    reveal_strlit("ttf");
    assert("html"@.len() == 4);
    assert("css"@.len() == 3);
    assert("js"@.len() == 2);
    assert("svg"@.len() == 3);
    assert("ico"@.len() == 3);
    assert("png"@.len() == 3);
    assert("jpg"@.len() == 3);
    assert("jpeg"@.len() == 4);
    assert("gif"@.len() == 3);
    assert("json"@.len() == 4);
    assert("map"@.len() == 3);
    assert("woff"@.len() == 4);
    assert("woff2"@.len() == 5);
    assert("ttf"@.len() == 3);
    assert("svg"@[0] != "css"@[0]);
    assert("svg"@ != "css"@);
    assert("ico"@[0] != "css"@[0]);
    assert("ico"@ != "css"@);
    assert("ico"@[0] != "svg"@[0]);
    assert("ico"@ != "svg"@);
    assert("png"@[0] != "css"@[0]);
    assert("png"@ != "css"@);
    assert("png"@[0] != "svg"@[0]);
    assert("png"@ != "svg"@);
    assert("png"@[0] != "ico"@[0]);
    assert("png"@ != "ico"@);
    assert("jpg"@[0] != "css"@[0]);
    assert("jpg"@ != "css"@);
    assert("jpg"@[0] != "svg"@[0]);
    assert("jpg"@ != "svg"@);
    assert("jpg"@[0] != "ico"@[0]);
    assert("jpg"@ != "ico"@);
    assert("jpg"@[0] != "png"@[0]);
    assert("jpg"@ != "png"@);
    assert("jpeg"@[0] != "html"@[0]);
    assert("jpeg"@ != "html"@);
    assert("gif"@[0] != "css"@[0]);
    assert("gif"@ != "css"@);
    assert("gif"@[0] != "svg"@[0]);
    assert("gif"@ != "svg"@);
    assert("gif"@[0] != "ico"@[0]);
    assert("gif"@ != "ico"@);
    assert("gif"@[0] != "png"@[0]);
    assert("gif"@ != "png"@);
    assert("gif"@[0] != "jpg"@[0]);
    assert("gif"@ != "jpg"@);
    assert("json"@[0] != "html"@[0]);
    assert("json"@ != "html"@);
    assert("json"@[1] != "jpeg"@[1]);
    assert("json"@ != "jpeg"@);
    assert("map"@[0] != "css"@[0]);
    assert("map"@ != "css"@);
    assert("map"@[0] != "svg"@[0]);
    assert("map"@ != "svg"@);
    assert("map"@[0] != "ico"@[0]);
    assert("map"@ != "ico"@);
    assert("map"@[0] != "png"@[0]);
    assert("map"@ != "png"@);
    assert("map"@[0] != "jpg"@[0]);
    assert("map"@ != "jpg"@);
    assert("map"@[0] != "gif"@[0]);
    assert("map"@ != "gif"@);
    assert("woff"@[0] != "html"@[0]);
    assert("woff"@ != "html"@);
    assert("woff"@[0] != "jpeg"@[0]);
    assert("woff"@ != "jpeg"@);
    assert("woff"@[0] != "json"@[0]);
    assert("woff"@ != "json"@);
    assert("ttf"@[0] != "css"@[0]);
    assert("ttf"@ != "css"@);
    assert("ttf"@[0] != "svg"@[0]);
    assert("ttf"@ != "svg"@);
    assert("ttf"@[0] != "ico"@[0]);
    assert("ttf"@ != "ico"@);
    assert("ttf"@[0] != "png"@[0]);
    assert("ttf"@ != "png"@);
    assert("ttf"@[0] != "jpg"@[0]);
    assert("ttf"@ != "jpg"@);
    assert("ttf"@[0] != "gif"@[0]);
    assert("ttf"@ != "gif"@);
    assert("ttf"@[0] != "map"@[0]);
    assert("ttf"@ != "map"@);
}

/// A stylesheet `stem.css`, alone or under a directory, is served as
/// `text/css; charset=utf-8`.
pub proof fn lemma_stylesheets_served_as_css(dir: Seq<char>, stem: Seq<char>)
    requires
        stem.len() > 0,
        forall|k: int| 0 <= k < stem.len() ==> stem[k] != '/',
    ensures
        mime_for_extension(extension(stem + ".css"@)) == "text/css; charset=utf-8"@,
        mime_for_extension(extension(dir + seq!['/'] + stem + ".css"@))
            == "text/css; charset=utf-8"@,
{
    reveal_strlit("css");
    reveal_strlit(".css");
    assert(".css"@ =~= seq!['.'] + "css"@);
    assert(stem + ".css"@ =~= stem + seq!['.'] + "css"@);
    assert(dir + seq!['/'] + stem + ".css"@ =~= dir + seq!['/'] + stem + seq!['.'] + "css"@);
    lemma_extension_of_named_file(dir, stem, "css"@);
    lemma_content_type_table("css"@);
}

} // verus!
