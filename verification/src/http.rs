//! The request/response edge of the server, as plain byte functions: parsing
//! the request line `GET /<target> HTTP/1.1`, percent-decoding the target,
//! deciding the route, and formatting the response head. The sockets and the
//! filesystem stay with the caller, who hands in what they returned.

use vstd::prelude::*;

verus! {

/// The bytes of `GET /`.
pub open spec fn method_prefix() -> Seq<u8> {
    seq![71u8, 69u8, 84u8, 32u8, 47u8]
}

/// The bytes of ` HTTP/1.1`.
pub open spec fn version_suffix() -> Seq<u8> {
    seq![32u8, 72u8, 84u8, 84u8, 80u8, 47u8, 49u8, 46u8, 49u8]
}

/// Is `line` a well-formed request line `GET /<target> HTTP/1.1`?
pub open spec fn is_get_request(line: Seq<u8>) -> bool {
    &&& line.len() >= 14
    &&& line.subrange(0, 5) == method_prefix()
    &&& line.subrange(line.len() - 9, line.len() as int) == version_suffix()
}

/// The target of a well-formed request line: what stands between `GET /`
/// and ` HTTP/1.1` (possibly nothing).
pub open spec fn request_target(line: Seq<u8>) -> Seq<u8> {
    line.subrange(5, line.len() - 9)
}

/// Parse one request line: the target for a well-formed `GET` line, nothing
/// otherwise.
pub fn parse_request_line(line: &Vec<u8>) -> (r: Option<Vec<u8>>)
    ensures
        match r {
            Some(t) => is_get_request(line@) && t@ == request_target(line@),
            None => !is_get_request(line@),
        },
{
    let n = line.len();
    if n < 14 {
        return None;
    }
    if !(line[0] == 71 && line[1] == 69 && line[2] == 84 && line[3] == 32 && line[4] == 47) {
        proof {
            assert(line@.subrange(0, 5) != method_prefix()) by {
                if line@.subrange(0, 5) == method_prefix() {
                    assert(line@[0] == method_prefix()[0]);
                    assert(line@[1] == method_prefix()[1]);
                    assert(line@[2] == method_prefix()[2]);
                    assert(line@[3] == method_prefix()[3]);
                    assert(line@[4] == method_prefix()[4]);
                }
            }
        }
        return None;
    }
    if !(line[n - 9] == 32 && line[n - 8] == 72 && line[n - 7] == 84 && line[n - 6] == 84
        && line[n - 5] == 80 && line[n - 4] == 47 && line[n - 3] == 49 && line[n - 2] == 46
        && line[n - 1] == 49) {
        proof {
            let suf = line@.subrange(line@.len() - 9, line@.len() as int);
            assert(suf != version_suffix()) by {
                if suf == version_suffix() {
                    assert(line@[line@.len() - 9] == version_suffix()[0]);
                    assert(line@[line@.len() - 8] == version_suffix()[1]);
                    assert(line@[line@.len() - 7] == version_suffix()[2]);
                    assert(line@[line@.len() - 6] == version_suffix()[3]);
                    assert(line@[line@.len() - 5] == version_suffix()[4]);
                    assert(line@[line@.len() - 4] == version_suffix()[5]);
                    assert(line@[line@.len() - 3] == version_suffix()[6]);
                    assert(line@[line@.len() - 2] == version_suffix()[7]);
                    assert(line@[line@.len() - 1] == version_suffix()[8]);
                }
            }
        }
        return None;
    }
    let mut t: Vec<u8> = Vec::new();
    let mut k: usize = 5;
    while k < n - 9
        invariant
            5 <= k <= n - 9,
            14 <= n == line@.len(),
            t@ == line@.subrange(5, k as int),
        decreases n - 9 - k,
    {
        t.push(line[k]);
        proof {
            assert(t@ =~= line@.subrange(5, k as int + 1));
        }
        k = k + 1;
    }
    proof {
        assert(line@.subrange(0, 5) =~= method_prefix());
        assert(line@.subrange(line@.len() - 9, line@.len() as int) =~= version_suffix());
        assert(t@ == request_target(line@));
    }
    Some(t)
}

/// What `urlencoding::decode` makes of a byte string, when the decoded bytes
/// are valid text.
pub uninterp spec fn url_decoded_of(s: Seq<u8>) -> Seq<u8>;

/// Plain characters only: no byte beyond the plain-text range, no `%`.
pub open spec fn plain_ascii(s: Seq<u8>) -> bool {
    forall|i: int| 0 <= i < s.len() ==> ((#[trigger] s[i]) < 128 && s[i] != 37)
}

/// Relies on `urlencoding::decode`: percent-decoding depends on the bytes
/// alone; it fails only when the result is not valid text, and a string of
/// plain characters without `%` (byte 37) decodes to itself.
#[verifier::external_body]
fn url_decode(target: &Vec<u8>) -> (r: Option<Vec<u8>>)
    ensures
        r is Some ==> (r->0)@ == url_decoded_of(target@),
        plain_ascii(target@) ==> r is Some && (r->0)@ == target@,
{
    let s = match std::str::from_utf8(target.as_slice()) {
        Ok(s) => s,
        Err(_) => return None,
    };
    match urlencoding::decode(s) {
        Ok(decoded) => Some(decoded.into_owned().into_bytes()),
        Err(_) => None,
    }
}

/// The routing decision for one request line.
pub enum RequestKind {
    /// `GET / HTTP/1.1`: the listing page of the served root.
    Index,
    /// `GET /<target> HTTP/1.1`: the percent-decoded target path.
    Path { path: Vec<u8> },
    /// The target does not percent-decode to valid text.
    BadEncoding,
    /// Not a well-formed `GET` request line.
    BadRequest,
}

/// Classify one request line: the index route for an empty target, otherwise
/// the percent-decoded target path. Where the decoded path leads on disk is
/// then decided by [`route_file`].
pub fn classify_request(line: &Vec<u8>) -> (r: RequestKind)
    ensures
        (r is BadRequest <==> !is_get_request(line@)),
        (r is Index <==> is_get_request(line@) && request_target(line@).len() == 0),
        (r matches RequestKind::Path { path } ==> path@ == url_decoded_of(
            request_target(line@),
        )),
        (is_get_request(line@) && request_target(line@).len() > 0 ==> (r is Path
            || r is BadEncoding)),
{
    match parse_request_line(line) {
        None => RequestKind::BadRequest,
        Some(t) => {
            if t.len() == 0 {
                RequestKind::Index
            } else {
                match url_decode(&t) {
                    Some(d) => RequestKind::Path { path: d },
                    None => RequestKind::BadEncoding,
                }
            }
        },
    }
}

/// Where a decoded target leads, by what the filesystem reported of it.
#[derive(Clone, Copy, Debug, PartialEq, Eq, Structural)]
pub enum FileRoute {
    /// The path names nothing: the not-found page.
    NotFound,
    /// The path is a directory: its listing page.
    Directory,
    /// The path is a file: its bytes are sent.
    File,
}

pub open spec fn route_file_spec(target_exists: bool, target_is_dir: bool) -> FileRoute {
    if !target_exists {
        FileRoute::NotFound
    } else if target_is_dir {
        FileRoute::Directory
    } else {
        FileRoute::File
    }
}

/// The serve decision for a decoded target, given whether the filesystem
/// found it and whether it is a directory.
pub fn route_file(target_exists: bool, target_is_dir: bool) -> (r: FileRoute)
    ensures
        r == route_file_spec(target_exists, target_is_dir),
{
    if !target_exists {
        FileRoute::NotFound
    } else if target_is_dir {
        FileRoute::Directory
    } else {
        FileRoute::File
    }
}

/// The byte for one decimal digit.
pub open spec fn dec_digit_byte(d: nat) -> u8 {
    (48 + d) as u8
}

/// The decimal numeral of `n` in bytes, most significant digit first.
pub open spec fn dec_rep_bytes(n: nat) -> Seq<u8>
    decreases n,
{
    if n < 10 {
        seq![dec_digit_byte(n)]
    } else {
        dec_rep_bytes(n / 10).push(dec_digit_byte(n % 10))
    }
}

fn u64_to_dec_bytes(n: u64) -> (r: Vec<u8>)
    ensures
        r@ == dec_rep_bytes(n as nat),
    decreases n,
{
    if n < 10 {
        let mut r: Vec<u8> = Vec::new();
        r.push((n as u8) + 48);
        proof {
            assert(r@ =~= dec_rep_bytes(n as nat));
        }
        r
    } else {
        proof {
            assert(n / 10 < n) by (nonlinear_arith)
                requires
                    n >= 10,
            ;
        }
        let mut r = u64_to_dec_bytes(n / 10);
        r.push(((n % 10) as u8) + 48);
        proof {
            assert(r@ =~= dec_rep_bytes(n as nat));
        }
        r
    }
}

/// The bytes of `\r\nContent-Length: `.
pub open spec fn length_header() -> Seq<u8> {
    seq![
        13u8,
        10u8,
        67u8,
        111u8,
        110u8,
        116u8,
        101u8,
        110u8,
        116u8,
        45u8,
        76u8,
        101u8,
        110u8,
        103u8,
        116u8,
        104u8,
        58u8,
        32u8,
    ]
}

/// The bytes of `\r\n\r\n`.
pub open spec fn head_end() -> Seq<u8> {
    seq![13u8, 10u8, 13u8, 10u8]
}

/// The response head: the status line, a Content-Length header, a blank line.
pub open spec fn response_head(status: Seq<u8>, length: nat) -> Seq<u8> {
    status + length_header() + dec_rep_bytes(length) + head_end()
}

/// The full response for a body: its head, then the body itself.
pub open spec fn response_bytes(status: Seq<u8>, contents: Seq<u8>) -> Seq<u8> {
    response_head(status, contents.len()) + contents
}

/// The bytes of `<status>\r\nContent-Length: <length>\r\n\r\n`, the head sent
/// before a body of `length` bytes.
pub fn http_header(status: &Vec<u8>, length: u64) -> (r: Vec<u8>)
    ensures
        r@ == response_head(status@, length as nat),
{
    let mut r: Vec<u8> = Vec::new();
    let mut k: usize = 0;
    while k < status.len()
        invariant
            k <= status@.len(),
            r@ == status@.subrange(0, k as int),
        decreases status@.len() - k,
    {
        r.push(status[k]);
        proof {
            assert(r@ =~= status@.subrange(0, k as int + 1));
        }
        k = k + 1;
    }
    proof {
        assert(status@.subrange(0, status@.len() as int) =~= status@);
    }
    r.push(13);
    r.push(10);
    r.push(67);
    r.push(111);
    r.push(110);
    r.push(116);
    r.push(101);
    r.push(110);
    r.push(116);
    r.push(45);
    r.push(76);
    r.push(101);
    r.push(110);
    r.push(103);
    r.push(116);
    r.push(104);
    r.push(58);
    r.push(32);
    proof {
        assert(r@ =~= status@ + length_header());
    }
    let mut num = u64_to_dec_bytes(length);
    r.append(&mut num);
    proof {
        assert(r@ =~= status@ + length_header() + dec_rep_bytes(length as nat));
    }
    r.push(13);
    r.push(10);
    r.push(13);
    r.push(10);
    proof {
        assert(r@ =~= response_head(status@, length as nat));
    }
    r
}

/// The full response bytes for a body sent under a status line.
pub fn http_response(status: &Vec<u8>, contents: &Vec<u8>) -> (r: Vec<u8>)
    ensures
        r@ == response_bytes(status@, contents@),
{
    let mut r = http_header(status, contents.len() as u64);
    let mut k: usize = 0;
    while k < contents.len()
        invariant
            k <= contents@.len(),
            r@ == response_head(status@, contents@.len()) + contents@.subrange(0, k as int),
        decreases contents@.len() - k,
    {
        r.push(contents[k]);
        proof {
            assert(r@ =~= response_head(status@, contents@.len()) + contents@.subrange(
                0,
                k as int + 1,
            ));
        }
        k = k + 1;
    }
    proof {
        assert(contents@.subrange(0, contents@.len() as int) =~= contents@);
        assert(r@ =~= response_bytes(status@, contents@));
    }
    r
}

/// The path of a directory entry relative to the served base: the leading
/// base prefix is removed where present (entries listed from the base always
/// carry it), and anything else is kept unchanged.
pub open spec fn relative_path_spec(path: Seq<u8>, base: Seq<u8>) -> Seq<u8> {
    if path.len() >= base.len() && path.subrange(0, base.len() as int) == base {
        path.subrange(base.len() as int, path.len() as int)
    } else {
        path
    }
}

/// Strip the served base from a directory entry's path.
pub fn relative_path(path: &Vec<u8>, base: &Vec<u8>) -> (r: Vec<u8>)
    ensures
        r@ == relative_path_spec(path@, base@),
{
    if path.len() < base.len() {
        return path.clone();
    }
    let mut k: usize = 0;
    while k < base.len()
        invariant
            k <= base@.len() <= path@.len(),
            path@.subrange(0, k as int) == base@.subrange(0, k as int),
        decreases base@.len() - k,
    {
        if path[k] != base[k] {
            proof {
                assert(path@.subrange(0, base@.len() as int)[k as int] != base@[k as int]);
            }
            return path.clone();
        }
        proof {
            assert(path@.subrange(0, k as int + 1) =~= base@.subrange(0, k as int + 1));
        }
        k = k + 1;
    }
    proof {
        assert(path@.subrange(0, base@.len() as int) =~= base@) by {
            assert(base@.subrange(0, base@.len() as int) =~= base@);
        }
    }
    let mut r: Vec<u8> = Vec::new();
    let mut k2: usize = base.len();
    while k2 < path.len()
        invariant
            base@.len() <= k2 <= path@.len(),
            path@.subrange(0, base@.len() as int) == base@,
            r@ == path@.subrange(base@.len() as int, k2 as int),
        decreases path@.len() - k2,
    {
        r.push(path[k2]);
        proof {
            assert(r@ =~= path@.subrange(base@.len() as int, k2 as int + 1));
        }
        k2 = k2 + 1;
    }
    r
}

/// What `handlebars::Handlebars::render` makes of the listing template.
pub uninterp spec fn rendered_of(template: Seq<char>) -> Seq<char>;

/// Relies on `handlebars::Handlebars::render` after
/// `register_template_string` of the same template under one fixed name,
/// with an empty data map: the page depends on the template alone.
#[verifier::external_body]
fn render_index(template: &str) -> (r: Option<String>)
    ensures
        r is Some ==> (r->0)@ == rendered_of(template@),
{
    let mut registry = handlebars::Handlebars::new();
    if registry.register_template_string("index", template).is_err() {
        return None;
    }
    let data: std::collections::BTreeMap<String, String> = std::collections::BTreeMap::new();
    match registry.render("index", &data) {
        Ok(page) => Some(page),
        Err(_) => None,
    }
}

/// The listing page of the served root: the rendered template under an OK
/// status, or an empty body under the internal-error status when the
/// template cannot be registered or rendered.
pub fn build_page(template: &str) -> (r: (&'static str, String))
    ensures
        (r.0@ == "HTTP/1.1 200 OK"@ && r.1@ == rendered_of(template@)) || (r.0@
            == "HTTP/1.1 500 Internal Server Error"@ && r.1@.len() == 0),
{
    match render_index(template) {
        Some(page) => ("HTTP/1.1 200 OK", page),
        None => ("HTTP/1.1 500 Internal Server Error", String::new()),
    }
}

} // verus!
