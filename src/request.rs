//! The request parser: a restricted HTTP/1.1 subset read from raw bytes.
//!
//! The head runs up to the first blank line (or the end of the data); its
//! first line must hold exactly three whitespace-separated words (method,
//! path, version); each later line with a colon is a header whose name is
//! folded to lower case. The body is exactly as long as `Content-Length`
//! says; a POST without that header is refused with `LengthRequired`.

use vstd::prelude::*;
use crate::text::{
    ascii_lower, decimal_of, is_space, lowered, parse_decimal, trim, trim_bounds,
    trimmed,
};

verus! {

/// The most bytes read from one connection.
pub const MAX_REQUEST_BYTES: usize = 1048576;

/// The failures a request can end in, each with its HTTP status.
#[derive(Clone, Copy, Debug, PartialEq, Eq, Structural)]
pub enum HttpError {
    BadRequest,
    Forbidden,
    NotFound,
    LengthRequired,
    InternalServerError,
}

/// One header line: its name in lower case and its trimmed value.
#[derive(Clone, Debug)]
pub struct Header {
    pub name: Vec<u8>,
    pub value: Vec<u8>,
}

/// A parsed request.
#[derive(Clone, Debug)]
pub struct Request {
    pub method: Vec<u8>,
    pub path: Vec<u8>,
    pub version: Vec<u8>,
    pub headers: Vec<Header>,
    pub body: Vec<u8>,
}

/// The bytes of an ASCII text.
pub open spec fn ascii(s: Seq<char>) -> Seq<u8> {
    s.map_values(|c: char| c as u8)
}

/// The bytes of an ASCII literal.
pub(crate) fn literal(s: &str) -> (r: &[u8])
    requires
        vstd::string::is_ascii(s),
    ensures
        r@ == ascii(s@),
{
    let b = s.as_bytes();
    assert(b@ =~= ascii(s@));
    b
}

pub open spec fn blank(l: Seq<u8>) -> bool {
    trimmed(l).len() == 0
}

/// Scans the head from position `i`, where the current line began at
/// `start`. Gives the non-blank lines up to the first blank one, where the
/// body starts, and whether a blank line ended the head.
pub open spec fn head_scan(s: Seq<u8>, i: int, start: int) -> (Seq<Seq<u8>>, int, bool)
    decreases s.len() - i,
{
    if i >= s.len() {
        let l = s.subrange(start, s.len() as int);
        if start < s.len() && !blank(l) {
            (seq![l], s.len() as int, false)
        } else {
            (seq![], s.len() as int, false)
        }
    } else if s[i] == 10 {
        let l = s.subrange(start, i);
        if blank(l) {
            (seq![], i + 1, true)
        } else {
            let rest = head_scan(s, i + 1, i + 1);
            (seq![l] + rest.0, rest.1, rest.2)
        }
    } else {
        head_scan(s, i + 1, start)
    }
}

/// The lines of the head, without line ends.
pub open spec fn head_lines(s: Seq<u8>) -> Seq<Seq<u8>> {
    head_scan(s, 0, 0).0
}

/// Where the body begins.
pub open spec fn body_start(s: Seq<u8>) -> int {
    head_scan(s, 0, 0).1
}

/// Whether a blank line ends the head within the data.
pub open spec fn head_complete(s: Seq<u8>) -> bool {
    head_scan(s, 0, 0).2
}

/// Splits `t` into words from position `i`, where the current word began at
/// `start` (`start == i` when no word is open).
pub open spec fn words_from(t: Seq<u8>, i: int, start: int) -> Seq<Seq<u8>>
    decreases t.len() - i,
{
    if i >= t.len() {
        if start < t.len() {
            seq![t.subrange(start, t.len() as int)]
        } else {
            seq![]
        }
    } else if is_space(t[i]) {
        let w: Seq<Seq<u8>> = if start < i {
            seq![t.subrange(start, i)]
        } else {
            seq![]
        };
        w + words_from(t, i + 1, i + 1)
    } else {
        words_from(t, i + 1, start)
    }
}

/// The whitespace-separated words of a line.
pub open spec fn words(t: Seq<u8>) -> Seq<Seq<u8>> {
    words_from(t, 0, 0)
}

/// The first position at or after `i` that holds `c`, or the length.
pub open spec fn find_from(t: Seq<u8>, c: u8, i: int) -> int
    decreases t.len() - i,
{
    if i >= t.len() {
        t.len() as int
    } else if t[i] == c {
        i
    } else {
        find_from(t, c, i + 1)
    }
}

/// A header line split at its first colon: the trimmed name in lower case
/// and the trimmed value. A line without a colon is no header.
pub open spec fn header_of(t: Seq<u8>) -> Option<(Seq<u8>, Seq<u8>)> {
    let c = find_from(t, 58, 0);
    if c < t.len() {
        Some((lowered(trimmed(t.subrange(0, c))), trimmed(t.subrange(c + 1, t.len() as int))))
    } else {
        None
    }
}

/// The headers that a run of head lines declares, in order.
pub open spec fn headers_of(ls: Seq<Seq<u8>>) -> Seq<(Seq<u8>, Seq<u8>)>
    decreases ls.len(),
{
    if ls.len() == 0 {
        seq![]
    } else {
        let prev = headers_of(ls.drop_last());
        match header_of(ls.last()) {
            Some(h) => prev.push(h),
            None => prev,
        }
    }
}

/// The value of the last header named `name`: a later line overrides an
/// earlier one.
pub open spec fn lookup(hs: Seq<(Seq<u8>, Seq<u8>)>, name: Seq<u8>) -> Option<Seq<u8>>
    decreases hs.len(),
{
    if hs.len() == 0 {
        None
    } else if hs.last().0 == name {
        Some(hs.last().1)
    } else {
        lookup(hs.drop_last(), name)
    }
}

pub open spec fn header_pairs(hs: Seq<Header>) -> Seq<(Seq<u8>, Seq<u8>)> {
    hs.map_values(|h: Header| (h.name@, h.value@))
}

/// The words of the request line.
pub open spec fn request_words(s: Seq<u8>) -> Seq<Seq<u8>> {
    words(head_lines(s)[0])
}

/// The headers of the request.
pub open spec fn request_headers(s: Seq<u8>) -> Seq<(Seq<u8>, Seq<u8>)> {
    if head_lines(s).len() == 0 {
        seq![]
    } else {
        headers_of(head_lines(s).drop_first())
    }
}

pub open spec fn content_length_name() -> Seq<u8> {
    ascii("content-length"@)
}

/// The text of the `Content-Length` header, if there is one.
pub open spec fn declared_length(s: Seq<u8>) -> Option<Seq<u8>> {
    lookup(request_headers(s), content_length_name())
}

/// The body length that the head asks for: the `Content-Length` value, or
/// zero where the header is absent.
pub open spec fn body_len(s: Seq<u8>) -> int {
    match declared_length(s) {
        Some(v) => match decimal_of(v) {
            Some(n) => n as int,
            None => 0,
        },
        None => 0,
    }
}

/// The body: the declared number of bytes after the head.
pub open spec fn parsed_body(s: Seq<u8>) -> Seq<u8> {
    s.subrange(body_start(s), body_start(s) + body_len(s))
}

/// Why the data is refused, if it is: a request line that is not exactly
/// three words gives `BadRequest` whatever follows; then a POST without
/// `Content-Length` gives `LengthRequired`; then a length that is no number,
/// or more bytes than the data holds, gives `BadRequest`.
pub open spec fn parse_error(s: Seq<u8>) -> Option<HttpError> {
    if head_lines(s).len() == 0 || request_words(s).len() != 3 {
        Some(HttpError::BadRequest)
    } else {
        match declared_length(s) {
            None => if request_words(s)[0] == ascii("POST"@) {
                Some(HttpError::LengthRequired)
            } else {
                None
            },
            Some(v) => match decimal_of(v) {
                None => Some(HttpError::BadRequest),
                Some(n) => if body_start(s) + n > s.len() {
                    Some(HttpError::BadRequest)
                } else {
                    None
                },
            },
        }
    }
}

/// Equality of two byte strings.
pub fn bytes_eq(a: &[u8], b: &[u8]) -> (r: bool)
    ensures
        r == (a@ == b@),
{
    if a.len() != b.len() {
        return false;
    }
    let mut i: usize = 0;
    while i < a.len()
        invariant
            i <= a@.len() == b@.len(),
            forall|k: int| 0 <= k < i ==> a@[k] == b@[k],
        decreases a@.len() - i,
    {
        if a[i] != b[i] {
            return false;
        }
        i = i + 1;
    }
    assert(a@ =~= b@);
    true
}

/// Splits the head into line bounds; also gives where the body starts and
/// whether a blank line ended the head.
pub fn scan_head(s: &[u8]) -> (r: (Vec<(usize, usize)>, usize, bool))
    ensures
        r.0@.len() == head_lines(s@).len(),
        forall|k: int|
            0 <= k < r.0@.len() ==> {
                &&& (#[trigger] r.0@[k]).0 <= r.0@[k].1 <= s@.len()
                &&& s@.subrange(r.0@[k].0 as int, r.0@[k].1 as int) == head_lines(s@)[k]
            },
        r.1 == body_start(s@),
        r.1 <= s@.len(),
        r.2 == head_complete(s@),
{
    proof {
        lemma_head_scan_within(s@, 0, 0);
    }
    let mut bounds: Vec<(usize, usize)> = Vec::new();
    let ghost mut seen: Seq<Seq<u8>> = seq![];
    let mut i: usize = 0;
    let mut start: usize = 0;
    while i < s.len()
        invariant
            start <= i <= s@.len(),
            bounds@.len() == seen.len(),
            forall|k: int|
                0 <= k < bounds@.len() ==> {
                    &&& (#[trigger] bounds@[k]).0 <= bounds@[k].1 <= s@.len()
                    &&& s@.subrange(bounds@[k].0 as int, bounds@[k].1 as int) == seen[k]
                },
            head_scan(s@, 0, 0) == ({
                let rest = head_scan(s@, i as int, start as int);
                (seen + rest.0, rest.1, rest.2)
            }),
        decreases s@.len() - i,
    {
        if s[i] == 10 {
            let (a, b) = trim_bounds(&s[start..i]);
            if a == b {
                assert(seen + seq![] =~= seen);
                return (bounds, i + 1, true);
            }
            let ghost l = s@.subrange(start as int, i as int);
            bounds.push((start, i));
            proof {
                let rest = head_scan(s@, i + 1, i + 1);
                assert(seen + (seq![l] + rest.0) =~= seen.push(l) + rest.0);
                seen = seen.push(l);
            }
            start = i + 1;
        }
        i = i + 1;
    }
    if start < i {
        let (a, b) = trim_bounds(&s[start..i]);
        if a != b {
            let ghost l = s@.subrange(start as int, i as int);
            bounds.push((start, i));
            proof {
                assert(seen + seq![l] =~= seen.push(l));
                seen = seen.push(l);
            }
            return (bounds, s.len(), false);
        }
    }
    assert(seen + seq![] =~= seen);
    (bounds, s.len(), false)
}


/// A fresh copy of a byte string.
pub fn copy_bytes(s: &[u8]) -> (r: Vec<u8>)
    ensures
        r@ == s@,
{
    let mut r: Vec<u8> = Vec::new();
    r.extend_from_slice(s);
    assert(r@ =~= s@);
    r
}

proof fn lemma_head_scan_within(s: Seq<u8>, i: int, start: int)
    requires
        0 <= i <= s.len(),
    ensures
        0 <= head_scan(s, i, start).1 <= s.len(),
    decreases s.len() - i,
{
    if i < s.len() {
        lemma_head_scan_within(s, i + 1, if s[i] == 10 { i + 1 } else { start });
    }
}

pub open spec fn word_views(ws: Seq<Vec<u8>>) -> Seq<Seq<u8>> {
    ws.map_values(|w: Vec<u8>| w@)
}

/// The whitespace-separated words of a line.
pub fn split_words(t: &[u8]) -> (r: Vec<Vec<u8>>)
    ensures
        word_views(r@) == words(t@),
{
    let mut r: Vec<Vec<u8>> = Vec::new();
    let mut i: usize = 0;
    let mut start: usize = 0;
    while i < t.len()
        invariant
            start <= i <= t@.len(),
            words(t@) == word_views(r@) + words_from(t@, i as int, start as int),
        decreases t@.len() - i,
    {
        let b = t[i];
        if b == 32 || b == 9 || b == 10 || b == 12 || b == 13 {
            let ghost before = r@;
            if start < i {
                let w = copy_bytes(&t[start..i]);
                r.push(w);
                assert(word_views(r@) =~= word_views(before) + seq![t@.subrange(start as int, i as int)]);
            } else {
                assert(word_views(r@) =~= word_views(before) + seq![]);
            }
            proof {
                let w: Seq<Seq<u8>> = if start < i {
                    seq![t@.subrange(start as int, i as int)]
                } else {
                    seq![]
                };
                assert(word_views(before) + (w + words_from(t@, i + 1, i + 1)) =~= (word_views(before) + w) + words_from(t@, i + 1, i + 1));
            }
            start = i + 1;
        }
        i = i + 1;
    }
    if start < i {
        let ghost before = r@;
        let w = copy_bytes(&t[start..i]);
        r.push(w);
        assert(word_views(r@) =~= word_views(before) + seq![t@.subrange(start as int, i as int)]);
    } else {
        assert(word_views(r@) =~= word_views(r@) + seq![]);
    }
    r
}

/// The first position at or after `i` that holds `c`, or the length.
pub fn find_byte(t: &[u8], c: u8, i: usize) -> (r: usize)
    requires
        i <= t@.len(),
    ensures
        r == find_from(t@, c, i as int),
{
    let mut k: usize = i;
    while k < t.len() && t[k] != c
        invariant
            i <= k <= t@.len(),
            find_from(t@, c, i as int) == find_from(t@, c, k as int),
        decreases t@.len() - k,
    {
        k = k + 1;
    }
    k
}

/// Reads one header line.
pub fn parse_header_line(t: &[u8]) -> (r: Option<Header>)
    ensures
        match r {
            Some(h) => header_of(t@) == Some((h.name@, h.value@)),
            None => header_of(t@) is None,
        },
{
    let c = find_byte(t, 58, 0);
    if c < t.len() {
        let name = ascii_lower(trim(&t[0..c]).as_slice());
        let value = trim(&t[c + 1..t.len()]);
        Some(Header { name, value })
    } else {
        None
    }
}

/// Where the last header named `name` stands.
pub fn find_header(hs: &Vec<Header>, name: &[u8]) -> (r: Option<usize>)
    ensures
        match r {
            Some(k) => k < hs@.len() && lookup(header_pairs(hs@), name@) == Some(hs@[k as int].value@),
            None => lookup(header_pairs(hs@), name@) is None,
        },
{
    let mut k: usize = hs.len();
    assert(hs@.subrange(0, k as int) =~= hs@);
    while k > 0
        invariant
            k <= hs@.len(),
            lookup(header_pairs(hs@), name@) == lookup(header_pairs(hs@.subrange(0, k as int)), name@),
        decreases k,
    {
        let ghost pre = header_pairs(hs@.subrange(0, k as int));
        assert(pre.drop_last() =~= header_pairs(hs@.subrange(0, k - 1)));
        if bytes_eq(hs[k - 1].name.as_slice(), name) {
            return Some(k - 1);
        }
        k = k - 1;
    }
    assert(header_pairs(hs@.subrange(0, 0)) =~= seq![]);
    None
}

impl Request {
    /// The value of the header named `name`, in any letter case.
    pub fn header(&self, name: &[u8]) -> (r: Option<&Vec<u8>>)
        ensures
            match r {
                Some(v) => lookup(header_pairs(self.headers@), lowered(name@)) == Some(v@),
                None => lookup(header_pairs(self.headers@), lowered(name@)) is None,
            },
    {
        let key = ascii_lower(name);
        match find_header(&self.headers, key.as_slice()) {
            Some(k) => Some(&self.headers[k].value),
            None => None,
        }
    }
}

/// The headers of the head lines after the first.
fn collect_headers(data: &[u8], lines: &Vec<(usize, usize)>) -> (r: Vec<Header>)
    requires
        lines@.len() == head_lines(data@).len() > 0,
        forall|k: int|
            0 <= k < lines@.len() ==> {
                &&& (#[trigger] lines@[k]).0 <= lines@[k].1 <= data@.len()
                &&& data@.subrange(lines@[k].0 as int, lines@[k].1 as int) == head_lines(data@)[k]
            },
    ensures
        header_pairs(r@) == request_headers(data@),
{
    let ghost ls = head_lines(data@);
    let mut headers: Vec<Header> = Vec::new();
    let mut k: usize = 1;
    while k < lines.len()
        invariant
            1 <= k <= lines@.len() == ls.len(),
            ls == head_lines(data@),
            forall|j: int|
                0 <= j < lines@.len() ==> {
                    &&& (#[trigger] lines@[j]).0 <= lines@[j].1 <= data@.len()
                    &&& data@.subrange(lines@[j].0 as int, lines@[j].1 as int) == ls[j]
                },
            header_pairs(headers@) == headers_of(ls.subrange(1, k as int)),
        decreases lines@.len() - k,
    {
        let (a, b) = lines[k];
        let h = parse_header_line(&data[a..b]);
        let ghost before = headers@;
        assert(ls.subrange(1, k + 1).drop_last() =~= ls.subrange(1, k as int));
        assert(data@.subrange(a as int, b as int) =~= ls[k as int]);
        match h {
            Some(h) => {
                headers.push(h);
                assert(header_pairs(headers@) =~= header_pairs(before).push((h.name@, h.value@)));
            },
            None => {},
        }
        k = k + 1;
    }
    assert(ls.subrange(1, ls.len() as int) =~= ls.drop_first());
    headers
}

/// How many bytes a request takes in all, once a blank line has ended its
/// head: the head alone where the request line is not three words, else
/// the head and the body that `Content-Length` declares (none where it is
/// absent or no number), capped at `usize::MAX`.
pub open spec fn wanted_length(s: Seq<u8>) -> Option<int> {
    if !head_complete(s) {
        None
    } else if head_lines(s).len() == 0 || request_words(s).len() != 3 {
        Some(body_start(s))
    } else if body_start(s) + body_len(s) <= usize::MAX {
        Some(body_start(s) + body_len(s))
    } else {
        Some(usize::MAX as int)
    }
}

/// How many bytes to read for the request that `data` begins; `None` while
/// its head is not complete. A malformed request line asks for no body.
pub fn request_length(data: &[u8]) -> (r: Option<usize>)
    ensures
        match r {
            Some(n) => wanted_length(data@) == Some(n as int),
            None => wanted_length(data@) is None,
        },
{
    let (lines, start, complete) = scan_head(data);
    if !complete {
        return None;
    }
    if lines.len() == 0 {
        return Some(start);
    }
    let (a0, b0) = lines[0];
    let ws = split_words(&data[a0..b0]);
    assert(data@.subrange(a0 as int, b0 as int) =~= head_lines(data@)[0]);
    if ws.len() != 3 {
        return Some(start);
    }
    let headers = collect_headers(data, &lines);
    proof {
        reveal_strlit("content-length");
    }
    let len: usize = match find_header(&headers, literal("content-length")) {
        None => 0,
        Some(j) => match parse_decimal(headers[j].value.as_slice()) {
            None => 0,
            Some(n) => n,
        },
    };
    Some(start.saturating_add(len))
}

/// How many more bytes to read after `data`: none once the request is
/// complete or the cap is reached; else as many as the request still asks
/// for (all the cap allows while its head is incomplete), within the cap.
pub open spec fn read_budget_of(s: Seq<u8>) -> int {
    let room = if s.len() < MAX_REQUEST_BYTES {
        MAX_REQUEST_BYTES - s.len()
    } else {
        0
    };
    match wanted_length(s) {
        Some(n) => if s.len() >= n {
            0
        } else if n - s.len() < room {
            n - s.len()
        } else {
            room
        },
        None => room,
    }
}

/// How many more bytes to read from the connection, given what has been
/// read; zero means stop.
pub fn read_budget(data: &[u8]) -> (r: usize)
    ensures
        r == read_budget_of(data@),
{
    let room: usize = if data.len() < MAX_REQUEST_BYTES {
        MAX_REQUEST_BYTES - data.len()
    } else {
        0
    };
    match request_length(data) {
        Some(n) => if data.len() >= n {
            0
        } else if n - data.len() < room {
            n - data.len()
        } else {
            room
        },
        None => room,
    }
}

/// Parses a whole request held in `data`.
pub fn parse_request(data: &[u8]) -> (r: Result<Request, HttpError>)
    ensures
        match r {
            Ok(req) => {
                &&& parse_error(data@) is None
                &&& req.method@ == request_words(data@)[0]
                &&& req.path@ == request_words(data@)[1]
                &&& req.version@ == request_words(data@)[2]
                &&& header_pairs(req.headers@) == request_headers(data@)
                &&& req.body@ == parsed_body(data@)
            },
            Err(e) => parse_error(data@) == Some(e),
        },
{
    let (lines, start, _complete) = scan_head(data);
    if lines.len() == 0 {
        return Err(HttpError::BadRequest);
    }
    let (a0, b0) = lines[0];
    let ws = split_words(&data[a0..b0]);
    assert(data@.subrange(a0 as int, b0 as int) =~= head_lines(data@)[0]);
    if ws.len() != 3 {
        return Err(HttpError::BadRequest);
    }
    let headers = collect_headers(data, &lines);
    proof {
        reveal_strlit("content-length");
    }
    let cl_name = literal("content-length");
    let method = copy_bytes(ws[0].as_slice());
    let path = copy_bytes(ws[1].as_slice());
    let version = copy_bytes(ws[2].as_slice());
    assert(word_views(ws@)[0] == ws@[0]@);
    assert(word_views(ws@)[1] == ws@[1]@);
    assert(word_views(ws@)[2] == ws@[2]@);
    let len: usize = match find_header(&headers, cl_name) {
        None => {
            proof {
                reveal_strlit("POST");
            }
            let post = literal("POST");
            if bytes_eq(method.as_slice(), post) {
                return Err(HttpError::LengthRequired);
            }
            0
        },
        Some(j) => match parse_decimal(headers[j].value.as_slice()) {
            None => {
                return Err(HttpError::BadRequest);
            },
            Some(n) => {
                if n > data.len() - start {
                    return Err(HttpError::BadRequest);
                }
                n
            },
        },
    };
    let body = copy_bytes(&data[start..start + len]);
    Ok(Request { method, path, version, headers, body })
}


proof fn lemma_head_scan_prefix(h: Seq<u8>, b: Seq<u8>, i: int, start: int)
    requires
        0 <= start <= i <= h.len(),
        head_scan(h, i, start).2,
    ensures
        head_scan(h + b, i, start) == head_scan(h, i, start),
    decreases h.len() - i,
{
    let s = h + b;
    if i < h.len() {
        assert(s[i] == h[i]);
        assert(s.subrange(start, i) =~= h.subrange(start, i));
        if h[i] == 10 {
            if !blank(h.subrange(start, i)) {
                lemma_head_scan_prefix(h, b, i + 1, i + 1);
            }
        } else {
            lemma_head_scan_prefix(h, b, i + 1, start);
        }
    }
}

/// Bytes after a head that a blank line ends do not change how the head
/// reads.
proof fn lemma_complete_head_prefix(head: Seq<u8>, rest: Seq<u8>)
    requires
        head_complete(head),
    ensures
        head_lines(head + rest) == head_lines(head),
        body_start(head + rest) == body_start(head),
        request_headers(head + rest) == request_headers(head),
        declared_length(head + rest) == declared_length(head),
{
    lemma_head_scan_prefix(head, rest, 0, 0);
}

/// A head that declares `Content-Length: L`, followed by a body of exactly
/// `L` bytes, parses, and its body is exactly that body.
pub proof fn lemma_declared_length_body(head: Seq<u8>, body: Seq<u8>)
    requires
        head_complete(head),
        body_start(head) == head.len(),
        head_lines(head).len() > 0,
        request_words(head).len() == 3,
        declared_length(head) matches Some(v) && decimal_of(v) matches Some(n) && n == body.len(),
    ensures
        parse_error(head + body) is None,
        parsed_body(head + body) == body,
        parsed_body(head + body).len() == body.len(),
{
    lemma_complete_head_prefix(head, body);
    assert((head + body).subrange(head.len() as int, (head.len() + body.len()) as int) =~= body);
}

/// Whatever the data, a request whose head declares `Content-Length: L`
/// has, once it parses, a body of exactly `L` bytes: the `L` bytes right
/// after the head. It parses whenever its request line is method, path and
/// version and the data holds those `L` bytes.
pub proof fn lemma_body_has_declared_length(data: Seq<u8>, len: nat)
    requires
        declared_length(data) matches Some(v) && decimal_of(v) matches Some(n) && n == len,
    ensures
        parse_error(data) is None ==> parsed_body(data).len() == len,
        parse_error(data) is None ==> parsed_body(data) == data.subrange(
            body_start(data),
            body_start(data) + len,
        ),
        head_lines(data).len() > 0 && request_words(data).len() == 3 && body_start(data) + len
            <= data.len() ==> parse_error(data) is None,
{
    lemma_head_scan_within(data, 0, 0);
}

/// A POST whose head has no `Content-Length` is refused with
/// `LengthRequired`, never read as an empty body.
pub proof fn lemma_post_needs_length(data: Seq<u8>)
    requires
        head_lines(data).len() > 0,
        request_words(data).len() == 3,
        request_words(data)[0] == ascii("POST"@),
        declared_length(data) is None,
    ensures
        parse_error(data) == Some(HttpError::LengthRequired),
{
}

/// A request line that is not exactly method, path and version is refused
/// with `BadRequest`, whatever bytes follow the head: no body is read.
pub proof fn lemma_bad_request_line(head: Seq<u8>, rest: Seq<u8>)
    requires
        head_complete(head),
        head_lines(head).len() == 0 || request_words(head).len() != 3,
    ensures
        parse_error(head + rest) == Some(HttpError::BadRequest),
{
    lemma_complete_head_prefix(head, rest);
}

} // verus!
