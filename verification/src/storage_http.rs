//! The HTTP service of the public files: which request is answered how.
use vstd::prelude::*;

use crate::clock::{generated_id, is_generated_id, new_id};
use crate::creature::uploads::upload_type;
use crate::decimal::{decimal, parse_count, read_count, write_u64};
use crate::outside::{ascii_lower, lossy_text, read_lossy, to_ascii_lowercase};
use crate::text::{
    cut, has_prefix, join2, join3, join4, law_trimming_twice_is_trimming_once, same, split_once, strip_prefix, texts, trim, trim_line_end,
    trimmed, unterminated, words, words_of,
};

verus! {

broadcast use vstd::string::group_string_axioms;

/// Where the public files are, under the storage root.
pub fn public_root(storage_root: &str) -> (r: String)
    ensures
        r@ == storage_root@ + "/"@ + "public-files"@,
{
    join3(storage_root, "/", "public-files")
}

// ---------------------------------------------------------------- requests

/// The word of a list at a place, or nothing.
pub open spec fn word_at(list: Seq<Seq<char>>, i: int) -> Seq<char> {
    if 0 <= i < list.len() {
        list[i]
    } else {
        Seq::empty()
    }
}

fn word_of(list: &Vec<String>, i: usize) -> (r: String)
    ensures
        r@ == word_at(texts(list@), i as int),
{
    if i < list.len() {
        assert(texts(list@)[i as int] == list@[i as int]@);
        list[i].clone()
    } else {
        let empty = String::new();
        assert(empty@ =~= Seq::<char>::empty());
        empty
    }
}

/// The method of a request and its path without the query; nothing for an empty line.
pub open spec fn requested(line: Seq<char>) -> Option<(Seq<char>, Seq<char>)> {
    if trimmed(line).len() == 0 {
        None
    } else {
        let parts = words_of(line);
        let path = word_at(parts, 1);
        Some(
            (
                word_at(parts, 0),
                match cut(path, "?"@) {
                    Some((route, _)) => route,
                    None => path,
                },
            ),
        )
    }
}

/// Read the first line of a request.
pub fn request_line(line: &str) -> (r: Option<(String, String)>)
    ensures
        match r {
            Some((method, route)) => requested(line@) == Some((method@, route@)),
            None => requested(line@) is None,
        },
{
    if trim(line).is_empty() {
        return None;
    }
    let parts = words(line);
    let method = word_of(&parts, 0);
    let path = word_of(&parts, 1);
    let route: String = match split_once(path.as_str(), "?") {
        Some((route, _)) => route.to_owned(),
        None => path.clone(),
    };
    Some((method, route))
}

/// Whether a line ends the headers.
pub fn ends_headers(line: &str) -> (r: bool)
    ensures
        r == (unterminated(line@).len() == 0),
{
    trim_line_end(line).is_empty()
}

/// The name of a header in lower case, and its value.
pub open spec fn header_pair(line: Seq<char>) -> Option<(Seq<char>, Seq<char>)> {
    match cut(unterminated(line), ":"@) {
        Some((key, value)) => Some(
            (trimmed(key).map_values(|c: char| ascii_lower(c)), trimmed(value)),
        ),
        None => None,
    }
}

/// The length that a header tells: nothing where it is no number.
pub open spec fn told_length(value: Seq<char>) -> usize {
    match read_count(value) {
        Some(n) => n,
        None => 0,
    }
}

/// The length and the type of the content that headers tell; of two that tell one thing the
/// later counts.
pub open spec fn content_told(lines: Seq<Seq<char>>) -> (usize, Seq<char>)
    decreases lines.len(),
{
    if lines.len() == 0 {
        (0, Seq::empty())
    } else {
        let before = content_told(lines.drop_last());
        match header_pair(lines.last()) {
            Some((key, value)) => if key == "content-length"@ {
                (told_length(value), before.1)
            } else if key == "content-type"@ {
                (before.0, value)
            } else {
                before
            },
            None => before,
        }
    }
}

/// Read the headers of a request.
pub fn read_headers(lines: &Vec<String>) -> (r: (usize, String))
    ensures
        (r.0, r.1@) == content_told(texts(lines@)),
{
    let ghost all = texts(lines@);
    let mut length: usize = 0;
    let mut kind = String::new();
    assert(kind@ =~= Seq::<char>::empty());
    let mut i: usize = 0;
    assert(all.subrange(0, 0) =~= Seq::empty());
    while i < lines.len()
        invariant
            i <= lines@.len(),
            all == texts(lines@),
            (length, kind@) == content_told(all.subrange(0, i as int)),
        decreases lines@.len() - i,
    {
        let ghost upto = all.subrange(0, i + 1);
        assert(upto.drop_last() =~= all.subrange(0, i as int));
        assert(upto.last() == lines@[i as int]@);
        if let Some((key, value)) = split_once(trim_line_end(lines[i].as_str()), ":") {
            let name = to_ascii_lowercase(trim(key));
            let told = trim(value);
            if same(name.as_str(), "content-length") {
                length = match parse_count(told) {
                    Some(n) => n,
                    None => 0,
                };
            } else if same(name.as_str(), "content-type") {
                kind = told.to_owned();
            }
        }
        i = i + 1;
    }
    assert(all.subrange(0, all.len() as int) =~= all);
    (length, kind)
}

/// What a request asks for.
pub enum StorageRoute {
    Health,
    Upload,
    File { id: String, head_only: bool },
    NotFound,
}

/// What a request asks for, as texts.
pub enum Asked {
    Health,
    Upload,
    File { id: Seq<char>, head_only: bool },
    NotFound,
}

impl View for StorageRoute {
    type V = Asked;

    open spec fn view(&self) -> Asked {
        match self {
            StorageRoute::Health => Asked::Health,
            StorageRoute::Upload => Asked::Upload,
            StorageRoute::File { id, head_only } => Asked::File { id: id@, head_only: *head_only },
            StorageRoute::NotFound => Asked::NotFound,
        }
    }
}

/// What a method on a path asks for.
pub open spec fn asked(method: Seq<char>, path: Seq<char>) -> Asked {
    let files = "/storage/file/"@;
    if method == "GET"@ && path == "/storage/health"@ {
        Asked::Health
    } else if (method == "POST"@ || method == "PUT"@) && path == "/storage/upload"@ {
        Asked::Upload
    } else if (method == "GET"@ || method == "HEAD"@) && has_prefix(path, files) {
        Asked::File {
            id: path.subrange(files.len() as int, path.len() as int),
            head_only: method == "HEAD"@,
        }
    } else {
        Asked::NotFound
    }
}

/// Decide what a request asks for.
pub fn route(method: &str, path: &str) -> (r: StorageRoute)
    ensures
        r@ == asked(method@, path@),
{
    let get: bool = same(method, "GET");
    let head: bool = same(method, "HEAD");
    if get && same(path, "/storage/health") {
        return StorageRoute::Health;
    }
    if (same(method, "POST") || same(method, "PUT")) && same(path, "/storage/upload") {
        return StorageRoute::Upload;
    }
    if get || head {
        if let Some(id) = strip_prefix(path, "/storage/file/") {
            return StorageRoute::File { id: id.to_owned(), head_only: head };
        }
    }
    StorageRoute::NotFound
}

// ---------------------------------------------------------------- answers

/// The answer to an upload before its content is read: a status and a body where it is
/// refused.
pub open spec fn upload_refusal(length: int, max_bytes: int) -> Option<(int, Seq<char>)> {
    if length == 0 {
        Some((400, "{\"error\":\"empty body\"}"@))
    } else if length > max_bytes {
        Some((413, "{\"error\":\"file too large\"}"@))
    } else {
        None
    }
}

/// Refuse an upload that is empty or too large.
pub fn refuse_upload(length: usize, max_bytes: usize) -> (r: Option<(u16, String)>)
    ensures
        match r {
            Some((status, body)) => upload_refusal(length as int, max_bytes as int) == Some(
                (status as int, body@),
            ),
            None => upload_refusal(length as int, max_bytes as int) is None,
        },
{
    if length == 0 {
        return Some((400, "{\"error\":\"empty body\"}".to_owned()));
    }
    if length > max_bytes {
        return Some((413, "{\"error\":\"file too large\"}".to_owned()));
    }
    None
}

/// The answer to a download of something that cannot be a stored file: files have generated
/// identifiers, and no other name is looked for.
pub open spec fn download_refusal(id: Seq<char>) -> Option<(int, Seq<char>)> {
    if is_generated_id(id) {
        None
    } else {
        Some((400, "{\"error\":\"invalid id\"}"@))
    }
}

/// Refuse a download of something that cannot be a stored file.
pub fn refuse_download(id: &str) -> (r: Option<(u16, String)>)
    ensures
        match r {
            Some((status, body)) => download_refusal(id@) == Some((status as int, body@)),
            None => download_refusal(id@) is None,
        },
{
    if generated_id(id) {
        None
    } else {
        Some((400, "{\"error\":\"invalid id\"}".to_owned()))
    }
}

/// A download never leaves the directory of the public files: the name that it reads has no
/// separator, and is no name of a directory.
pub proof fn law_downloads_stay_in_their_directory(id: Seq<char>, i: int)
    requires
        download_refusal(id) is None,
        0 <= i < id.len(),
    ensures
        id.len() > 0,
        id[i] != '/',
        id[i] != '\\',
        id[i] != '.',
        id[i] != ':',
{
}

/// Whatever was stored under a generated identifier can be asked for.
pub proof fn law_stored_files_can_be_asked_for(id: Seq<char>)
    requires
        is_generated_id(id),
    ensures
        asked("GET"@, "/storage/file/"@ + id) == (Asked::File { id, head_only: false }),
        download_refusal(id) is None,
{
    let files = "/storage/file/"@;
    let path = files + id;
    reveal_strlit("GET");
    reveal_strlit("HEAD");
    reveal_strlit("PUT");
    reveal_strlit("POST");
    reveal_strlit("/storage/file/");
    reveal_strlit("/storage/health");
    assert("GET"@.len() == 3 && "GET"@[0] == 'G');
    assert("PUT"@[0] == 'P');
    assert("HEAD"@.len() == 4);
    assert("POST"@.len() == 4);
    assert(files.len() == 14);
    assert(path.len() == 50);
    assert("/storage/health"@.len() == 15);
    assert(path.subrange(0, files.len() as int) =~= files);
    assert(path.subrange(files.len() as int, path.len() as int) =~= id);
}

/// The body of an answer that names an error; `error` is escaped.
pub fn error_body(error: &str) -> (r: String)
    ensures
        r@ == "{\"error\":\""@ + error@ + "\"}"@,
{
    join3("{\"error\":\"", error, "\"}")
}

/// The body of the answer to an upload.
pub fn upload_body(id: &str, content_type: &str) -> (r: String)
    ensures
        r@ == "{\"id\":\""@ + id@ + "\",\"contentType\":\""@ + content_type@ + "\"}"@,
{
    let head = join4("{\"id\":\"", id, "\",\"contentType\":\"", content_type);
    join2(head.as_str(), "\"}")
}

/// Give an uploaded file a name and a type: a generated identifier, and the stated type or that
/// of plain bytes.
pub fn place_file(content_type: &str) -> (r: (String, String))
    ensures
        is_generated_id(r.0@),
        r.1@ == type_beside(Some(content_type@)),
{
    (new_id(), stored_type(Some(content_type)))
}

/// The type of a stored file: what stands beside it, or that of plain bytes.
pub open spec fn type_beside(sidecar: Option<Seq<char>>) -> Seq<char> {
    match sidecar {
        Some(text) => upload_type(text),
        None => "application/octet-stream"@,
    }
}

/// The type of a stored file.
pub fn stored_type(sidecar: Option<&str>) -> (r: String)
    ensures
        r@ == type_beside(
            match sidecar {
                Some(text) => Some(text@),
                None => None,
            },
        ),
{
    if let Some(text) = sidecar {
        let kind = trim(text);
        if !kind.is_empty() {
            return kind.to_owned();
        }
    }
    "application/octet-stream".to_owned()
}

/// The type of a stored file, from the bytes that stand beside it.
pub fn recorded_type(sidecar: Option<&Vec<u8>>) -> (r: String)
    ensures
        r@ == type_beside(
            match sidecar {
                Some(bytes) => Some(lossy_text(bytes@)),
                None => None,
            },
        ),
{
    match sidecar {
        Some(bytes) => {
            let text = read_lossy(bytes.as_slice());
            stored_type(Some(text.as_str()))
        },
        None => stored_type(None),
    }
}

/// What a status is called.
pub open spec fn reason(status: u16) -> Seq<char> {
    if status == 400 {
        "Bad Request"@
    } else if status == 404 {
        "Not Found"@
    } else if status == 413 {
        "Payload Too Large"@
    } else if status == 500 {
        "Internal Server Error"@
    } else {
        "OK"@
    }
}

fn reason_of(status: u16) -> (r: &'static str)
    ensures
        r@ == reason(status),
{
    if status == 400 {
        "Bad Request"
    } else if status == 404 {
        "Not Found"
    } else if status == 413 {
        "Payload Too Large"
    } else if status == 500 {
        "Internal Server Error"
    } else {
        "OK"
    }
}

/// The head of an answer.
pub open spec fn answer_head(
    status: int,
    reason: Seq<char>,
    content_type: Seq<char>,
    length: int,
    more: Seq<char>,
) -> Seq<char> {
    "HTTP/1.1 "@ + decimal(status) + " "@ + reason + "\r\nContent-Type: "@ + content_type
        + "\r\nContent-Length: "@ + decimal(length) + "\r\n"@ + more + "Connection: close\r\n\r\n"@
}

/// Write the head of an answer.
pub fn write_head(status: u16, reason: &str, content_type: &str, length: usize, more: &str) -> (r:
    String)
    ensures
        r@ == answer_head(status as int, reason@, content_type@, length as int, more@),
{
    let code = write_u64(status as u64);
    let size = write_u64(length as u64);
    let one = join4("HTTP/1.1 ", code.as_str(), " ", reason);
    let two = join4(one.as_str(), "\r\nContent-Type: ", content_type, "\r\nContent-Length: ");
    let three = join4(two.as_str(), size.as_str(), "\r\n", more);
    join2(three.as_str(), "Connection: close\r\n\r\n")
}

/// The head of the answer that serves a file. Files never change, so they may be kept.
pub fn download_head(content_type: &str, length: usize) -> (r: String)
    ensures
        r@ == answer_head(
            200,
            "OK"@,
            content_type@,
            length as int,
            "Cache-Control: public, max-age=31536000, immutable\r\n"@,
        ),
{
    write_head(
        200,
        "OK",
        content_type,
        length,
        "Cache-Control: public, max-age=31536000, immutable\r\n",
    )
}

/// A whole answer: its head in bytes, and its body.
pub fn write_response(status: u16, content_type: &str, body: &Vec<u8>) -> (r: Vec<u8>)
    ensures
        r@ == vstd::utf8::encode_utf8(
            answer_head(
                status as int,
                reason(status),
                content_type@,
                body@.len() as int,
                Seq::empty(),
            ),
        ) + body@,
{
    proof {
        reveal_strlit("");
        assert(""@ =~= Seq::<char>::empty());
    }
    let head = write_head(status, reason_of(status), content_type, body.len(), "");
    let mut out = head.as_str().as_bytes_vec();
    let ghost text = out@;
    let mut i: usize = 0;
    assert(text + body@.subrange(0, 0) =~= text);
    while i < body.len()
        invariant
            i <= body@.len(),
            out@ == text + body@.subrange(0, i as int),
        decreases body@.len() - i,
    {
        out.push(body[i]);
        assert(text + body@.subrange(0, i + 1) =~= (text + body@.subrange(0, i as int)).push(
            body@[i as int],
        ));
        i = i + 1;
    }
    assert(body@.subrange(0, body@.len() as int) =~= body@);
    out
}

// ---------------------------------------------------------------- laws

/// The type that an upload is stored with is the type that it is served with.
pub proof fn law_content_types_round_trip(stated: Seq<char>)
    ensures
        type_beside(Some(upload_type(stated))) == upload_type(stated),
{
    law_trimming_twice_is_trimming_once(stated);
    let plain = "application/octet-stream"@;
    reveal_strlit("application/octet-stream");
    assert(plain.len() == 24);
    assert(plain[0] == 'a' && plain[23] == 'm');
    assert(trimmed(plain) == plain);
}

} // verus!
