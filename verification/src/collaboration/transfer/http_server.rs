//! The file server's decisions: which files are offered, how a request is
//! routed, how a `Range` header is read and what is answered.
//!
//! The application accepts connections, resolves paths on disk and sends
//! the headers and bytes decided here.

use crate::collaboration::ids::{parse_uuid, uuid_parsed};
use crate::text::{
    append, chars_of, decimal, first_word, lossy_text, utf8_lossy, first_word_spec, lines, lines_spec, lowercase_text,
    parse_u64, parse_u64_spec, push_decimal, split_char, split_spec, starts_with, starts_with_spec,
    string_of, to_lowercase, views,
};
use std::collections::HashMap;
use vstd::prelude::*;

verus! {

broadcast use vstd::std_specs::hash::group_hash_axioms;

/// The largest range served in one answer: 100 MiB.
pub const MAX_RANGE_SIZE: u64 = 100 * 1024 * 1024;

/// What `std::path::Path::new(path).starts_with(base)` answers: whether
/// `base`'s components are a prefix of `path`'s.
pub uninterp spec fn path_has_prefix(path: Seq<char>, base: Seq<char>) -> bool;

/// `std::path::Path::starts_with`.
#[verifier::external_body]
fn path_starts_with(path: &str, base: &str) -> (r: bool)
    ensures
        r == path_has_prefix(path@, base@),
{
    std::path::Path::new(path).starts_with(std::path::Path::new(base))
}

/// Why a file could not be offered.
#[derive(Clone, Copy, Debug, PartialEq, Eq, Structural)]
pub enum FileServerError {
    /// The file does not lie under the served directory.
    OutsideBase,
}

/// The files a device offers to its peers, by task.
pub struct FileServer {
    port: u16,
    files: HashMap<u128, String>,
}

/// A request as the server routes it.
#[derive(Clone, Debug)]
pub enum Route {
    /// Nothing was read: close without answering.
    Ignore,
    /// Send the file at `path`, honouring `range`.
    Serve { path: String, range: Option<(u64, Option<u64>)> },
    /// Answer 404.
    NotFound,
}

/// The task a request line asks for: the line starts with `GET /file/`,
/// and the fourth `/`-separated piece begins with a UUID.
///
/// For a request line such as `GET /file/<id> HTTP/1.1` the fourth piece
/// is the protocol version's `1.1`, so no task is found there.
pub open spec fn requested_id_spec(first_line: Seq<char>) -> Option<u128> {
    let parts = split_spec(first_line, '/');
    if starts_with_spec(first_line, "GET /file/"@) && parts.len() >= 4 {
        uuid_parsed(first_word_spec(parts[3]))
    } else {
        None
    }
}

/// The range given by one `Range: bytes=` line: the text after the first
/// `=` (up to a second `=`), split at `-`; the start must parse, the end is
/// open where it is missing or empty, and a start past the end is refused.
pub open spec fn range_of_line(line: Seq<char>) -> Option<(u64, Option<u64>)> {
    let pieces = split_spec(line, '=');
    if pieces.len() < 2 {
        None
    } else {
        let parts = split_spec(pieces[1], '-');
        match parse_u64_spec(parts[0]) {
            None => None,
            Some(start) => if parts.len() >= 2 && parts[1].len() > 0 {
                match parse_u64_spec(parts[1]) {
                    None => None,
                    Some(end) => if start > end {
                        None
                    } else {
                        Some((start, Some(end)))
                    },
                }
            } else {
                Some((start, None))
            },
        }
    }
}

/// The range a request asks for: read from its first line whose lowercase
/// form starts with `range: bytes=`.
pub open spec fn parse_range_spec(lines: Seq<Seq<char>>) -> Option<(u64, Option<u64>)>
    decreases lines.len(),
{
    if lines.len() == 0 {
        None
    } else if starts_with_spec(lowercase_text(lines[0]), "range: bytes="@) {
        range_of_line(lines[0])
    } else {
        parse_range_spec(lines.drop_first())
    }
}

/// The first line of a request's text (empty where there is none).
pub open spec fn first_line_spec(text: Seq<char>) -> Seq<char> {
    if lines_spec(text).len() > 0 {
        lines_spec(text)[0]
    } else {
        Seq::empty()
    }
}

/// How the server routes the request `bytes` with the files `files`.
pub open spec fn route_spec(files: Map<u128, String>, bytes: Seq<u8>) -> RouteView {
    if bytes.len() == 0 {
        RouteView::Ignore
    } else {
        let text = lossy_text(bytes);
        match requested_id_spec(first_line_spec(text)) {
            Some(id) => if files.contains_key(id) {
                RouteView::Serve { path: files[id]@, range: parse_range_spec(lines_spec(text)) }
            } else {
                RouteView::NotFound
            },
            None => RouteView::NotFound,
        }
    }
}

/// The mathematical content of a route.
pub enum RouteView {
    Ignore,
    Serve { path: Seq<char>, range: Option<(u64, Option<u64>)> },
    NotFound,
}

impl View for Route {
    type V = RouteView;

    open spec fn view(&self) -> RouteView {
        match *self {
            Route::Ignore => RouteView::Ignore,
            Route::Serve { path, range } => RouteView::Serve { path: path@, range },
            Route::NotFound => RouteView::NotFound,
        }
    }
}

/// The task a request line asks for (see `requested_id_spec`).
pub fn requested_task_id(first_line: &[char]) -> (r: Option<u128>)
    ensures
        r == requested_id_spec(first_line@),
{
    let prefix = chars_of("GET /file/");
    if !starts_with(first_line, prefix.as_slice()) {
        return None;
    }
    let parts = split_char(first_line, '/');
    if parts.len() < 4 {
        return None;
    }
    proof {
        assert(views(parts@)[3] == parts@[3]@);
    }
    let word = first_word(parts[3].as_slice());
    parse_uuid(word.as_slice())
}

/// The range of one `Range: bytes=` line (see `range_of_line`).
fn range_of(line: &[char]) -> (r: Option<(u64, Option<u64>)>)
    ensures
        r == range_of_line(line@),
{
    let pieces = split_char(line, '=');
    if pieces.len() < 2 {
        return None;
    }
    proof {
        assert(views(pieces@)[1] == pieces@[1]@);
    }
    let parts = split_char(pieces[1].as_slice(), '-');
    proof {
        assert(split_spec(pieces@[1]@, '-').len() >= 1);
        assert(views(parts@)[0] == parts@[0]@);
    }
    let start = match parse_u64(parts[0].as_slice()) {
        None => {
            return None;
        },
        Some(s) => s,
    };
    if parts.len() >= 2 && parts[1].len() > 0 {
        proof {
            assert(views(parts@)[1] == parts@[1]@);
        }
        match parse_u64(parts[1].as_slice()) {
            None => None,
            Some(end) => if start > end {
                None
            } else {
                Some((start, Some(end)))
            },
        }
    } else {
        proof {
            if parts@.len() >= 2 {
                assert(views(parts@)[1] == parts@[1]@);
            }
        }
        Some((start, None))
    }
}

/// `split_spec` never gives an empty list.
pub proof fn lemma_split_nonempty(s: Seq<char>, c: char)
    ensures
        split_spec(s, c).len() >= 1,
    decreases s.len(),
{
    if crate::text::has_char(s, c) {
        crate::text::lemma_first_index_exists(s, c);
        let i = choose|i: int| crate::text::is_first_index(s, c, i);
        lemma_split_nonempty(s.subrange(i + 1, s.len() as int), c);
    }
}

/// Reads the `Range` header of a request given as its lines (see
/// `parse_range_spec`).
pub fn parse_range(lines: &Vec<Vec<char>>) -> (r: Option<(u64, Option<u64>)>)
    ensures
        r == parse_range_spec(views(lines@)),
{
    let prefix = chars_of("range: bytes=");
    let mut i: usize = 0;
    proof {
        reveal_strlit("range: bytes=");
        assert(views(lines@).subrange(0, lines@.len() as int) =~= views(lines@));
    }
    while i < lines.len()
        invariant
            i <= lines.len(),
            prefix@ == "range: bytes="@,
            parse_range_spec(views(lines@)) == parse_range_spec(views(lines@).subrange(
                i as int,
                lines@.len() as int,
            )),
        decreases lines.len() - i,
    {
        let ghost rest = views(lines@).subrange(i as int, lines@.len() as int);
        assert(rest[0] == lines@[i as int]@);
        let line_text = string_of(lines[i].as_slice());
        let lower = to_lowercase(line_text.as_str());
        let lower_chars = chars_of(lower.as_str());
        if starts_with(lower_chars.as_slice(), prefix.as_slice()) {
            return range_of(lines[i].as_slice());
        }
        assert(rest.drop_first() =~= views(lines@).subrange(i + 1, lines@.len() as int));
        i = i + 1;
    }
    None
}

impl FileServer {
    /// The files offered, by task.
    pub closed spec fn files(&self) -> Map<u128, String> {
        self.files@
    }

    /// The port the server listens on.
    pub closed spec fn listen_port(&self) -> u16 {
        self.port
    }

    /// The port the server listens on.
    pub fn port(&self) -> (r: u16)
        ensures
            r == self.listen_port(),
    {
        self.port
    }

    /// The address the server listens on: `127.0.0.1` (loopback only, so
    /// the files are not exposed on every interface) and its port.
    pub fn bind_address(&self) -> (r: String)
        ensures
            r@ == "127.0.0.1:"@ + decimal(self.listen_port() as nat),
    {
        let mut out = chars_of("127.0.0.1:");
        push_decimal(&mut out, self.port as u64);
        string_of(out.as_slice())
    }

    /// A server on `port` offering no file yet.
    pub fn new(port: u16) -> (r: FileServer)
        ensures
            r.listen_port() == port,
            r.files() == Map::<u128, String>::empty(),
    {
        FileServer { port, files: HashMap::new() }
    }

    /// Offers the file at `canonical` (an absolute path without `..`) for
    /// task `task_id`, provided it lies under `canonical_base`, the served
    /// directory.
    pub fn register_file(&mut self, task_id: u128, canonical: String, canonical_base: &str) -> (r:
        Result<(), FileServerError>)
        ensures
            path_has_prefix(canonical@, canonical_base@) ==> r is Ok && final(self).files()
                == old(self).files().insert(task_id, canonical),
            !path_has_prefix(canonical@, canonical_base@) ==> r == Err::<(), FileServerError>(
                FileServerError::OutsideBase,
            ) && final(self).files() == old(self).files(),
            final(self).listen_port() == old(self).listen_port(),
    {
        if !path_starts_with(canonical.as_str(), canonical_base) {
            return Err(FileServerError::OutsideBase);
        }
        self.files.insert(task_id, canonical);
        Ok(())
    }

    /// Stops offering the file of task `task_id`.
    pub fn unregister_file(&mut self, task_id: u128)
        ensures
            final(self).files() == old(self).files().remove(task_id),
            final(self).listen_port() == old(self).listen_port(),
    {
        self.files.remove(&task_id);
    }

    /// Routes a request read from a connection (see `route_spec`).
    pub fn route_request(&self, request: &[u8]) -> (r: Route)
        ensures
            r@ == route_spec(self.files(), request@),
    {
        if request.len() == 0 {
            return Route::Ignore;
        }
        let text = utf8_lossy(request);
        let ls = lines(text.as_slice());
        let first: Vec<char> = if ls.len() > 0 {
            proof {
                assert(views(ls@)[0] == ls@[0]@);
            }
            crate::text::slice_chars(ls[0].as_slice(), 0, ls[0].len())
        } else {
            Vec::new()
        };
        proof {
            assert(views(ls@) == ls@.map_values(|l: Vec<char>| l@));
            assert(first@ =~= first_line_spec(text@));
        }
        match requested_task_id(first.as_slice()) {
            Some(id) => match self.files.get(&id) {
                Some(path) => {
                    let range = parse_range(&ls);
                    Route::Serve { path: string_of(chars_of(path.as_str()).as_slice()), range }
                },
                None => Route::NotFound,
            },
            None => Route::NotFound,
        }
    }
}

/// What a ranged request is answered.
#[derive(Clone, Copy, Debug, PartialEq, Eq, Structural)]
pub enum RangeReply {
    /// 416: the range cannot be served.
    NotSatisfiable,
    /// 206: bytes `start` to `end` of a file of `file_size` bytes.
    Partial { start: u64, end: u64, content_length: u64, file_size: u64 },
    /// 200: the whole file.
    Whole { file_size: u64 },
}

/// The answer to `range` on a file of `file_size` bytes: a start at or past
/// the end, a start past the end of the range, or a range over 100 MiB is
/// refused; an open range runs to the end of the file.
pub open spec fn range_reply_spec(range: Option<(u64, Option<u64>)>, file_size: u64) -> RangeReply {
    match range {
        None => RangeReply::Whole { file_size },
        Some((start, end_opt)) => if start >= file_size {
            RangeReply::NotSatisfiable
        } else {
            let end: u64 = match end_opt {
                Some(e) => e,
                None => (file_size - 1) as u64,
            };
            if start > end {
                RangeReply::NotSatisfiable
            } else if end - start + 1 > MAX_RANGE_SIZE {
                RangeReply::NotSatisfiable
            } else {
                let last: u64 = if end < file_size - 1 {
                    end
                } else {
                    (file_size - 1) as u64
                };
                RangeReply::Partial {
                    start,
                    end: last,
                    content_length: (last - start + 1) as u64,
                    file_size,
                }
            }
        },
    }
}

/// Decides the answer to `range` on a file of `file_size` bytes.
pub fn range_reply(range: Option<(u64, Option<u64>)>, file_size: u64) -> (r: RangeReply)
    ensures
        r == range_reply_spec(range, file_size),
{
    match range {
        None => RangeReply::Whole { file_size },
        Some((start, end_opt)) => {
            if start >= file_size {
                return RangeReply::NotSatisfiable;
            }
            let end = match end_opt {
                Some(e) => e,
                None => file_size - 1,
            };
            if start > end {
                return RangeReply::NotSatisfiable;
            }
            if end - start >= MAX_RANGE_SIZE {
                return RangeReply::NotSatisfiable;
            }
            let last = if end < file_size - 1 {
                end
            } else {
                file_size - 1
            };
            RangeReply::Partial { start, end: last, content_length: last - start + 1, file_size }
        },
    }
}

/// What the file server answers for a file at `canonical_path` of
/// `file_size` bytes: nothing (an error) where the file lies outside the
/// served directory `canonical_base`, else the answer to `range`.
pub fn serve_plan(
    canonical_path: &str,
    canonical_base: &str,
    file_size: u64,
    range: Option<(u64, Option<u64>)>,
) -> (r: Option<RangeReply>)
    ensures
        r == (if path_has_prefix(canonical_path@, canonical_base@) {
            Some(range_reply_spec(range, file_size))
        } else {
            None
        }),
{
    if !path_starts_with(canonical_path, canonical_base) {
        return None;
    }
    Some(range_reply(range, file_size))
}

/// The status line and headers of an answer.
pub open spec fn reply_header_spec(reply: RangeReply) -> Seq<char> {
    match reply {
        RangeReply::NotSatisfiable => "HTTP/1.1 416 Range Not Satisfiable\r\nContent-Range: */\r\nContent-Length: 0\r\n\r\n"@,
        RangeReply::Partial { start, end, content_length, file_size } =>
            "HTTP/1.1 206 Partial Content\r\nContent-Type: application/octet-stream\r\nContent-Length: "@
            + decimal(content_length as nat) + "\r\nContent-Range: bytes "@ + decimal(start as nat)
            + "-"@ + decimal(end as nat) + "/"@ + decimal(file_size as nat)
            + "\r\nAccept-Ranges: bytes\r\n\r\n"@,
        RangeReply::Whole { file_size } =>
            "HTTP/1.1 200 OK\r\nContent-Type: application/octet-stream\r\nContent-Length: "@
            + decimal(file_size as nat) + "\r\nAccept-Ranges: bytes\r\n\r\n"@,
    }
}

/// The status line and headers of an answer; the file follows them for 206
/// and 200.
pub fn reply_header(reply: RangeReply) -> (r: String)
    ensures
        r@ == reply_header_spec(reply),
{
    match reply {
        RangeReply::NotSatisfiable => {
            let s = chars_of("HTTP/1.1 416 Range Not Satisfiable\r\nContent-Range: */\r\nContent-Length: 0\r\n\r\n");
            string_of(s.as_slice())
        },
        RangeReply::Partial { start, end, content_length, file_size } => {
            let mut out = chars_of("HTTP/1.1 206 Partial Content\r\nContent-Type: application/octet-stream\r\nContent-Length: ");
            let ghost a = out@;
            push_decimal(&mut out, content_length);
            append(&mut out, chars_of("\r\nContent-Range: bytes ").as_slice());
            push_decimal(&mut out, start);
            append(&mut out, chars_of("-").as_slice());
            push_decimal(&mut out, end);
            append(&mut out, chars_of("/").as_slice());
            push_decimal(&mut out, file_size);
            append(&mut out, chars_of("\r\nAccept-Ranges: bytes\r\n\r\n").as_slice());
            proof {
                assert(out@ =~= reply_header_spec(reply));
            }
            string_of(out.as_slice())
        },
        RangeReply::Whole { file_size } => {
            let mut out = chars_of("HTTP/1.1 200 OK\r\nContent-Type: application/octet-stream\r\nContent-Length: ");
            push_decimal(&mut out, file_size);
            append(&mut out, chars_of("\r\nAccept-Ranges: bytes\r\n\r\n").as_slice());
            proof {
                assert(out@ =~= reply_header_spec(reply));
            }
            string_of(out.as_slice())
        },
    }
}

/// The answer to a request for no offered file.
pub fn not_found_reply() -> (r: String)
    ensures
        r@ == "HTTP/1.1 404 Not Found\r\nContent-Length: 0\r\n\r\n"@,
{
    let s = chars_of("HTTP/1.1 404 Not Found\r\nContent-Length: 0\r\n\r\n");
    string_of(s.as_slice())
}

} // verus!
