//! The demo server's part in a connection: from the bytes of a request to
//! the text of the response.

use crate::cache_service::ResolvePayload;
use crate::in_memory_cache::model::{answer_view, value_view};
use crate::in_memory_cache::InMemoryCache;
use std::str::Utf8Error;
use vstd::prelude::*;
use vstd::slice::slice_subrange;
use vstd::string::StringExecFns;
use vstd::utf8::{decode_utf8, valid_utf8};

verus! {

/// A carriage return or a line feed: the bytes that end a line.
pub open spec fn is_line_break(byte: u8) -> bool {
    byte == 13 || byte == 10
}

/// The end of the line that starts at `from`: the index of the next line
/// break, or the length of `bytes` where there is none.
pub open spec fn line_end(bytes: Seq<u8>, from: int) -> int
    decreases bytes.len() - from,
{
    if from >= bytes.len() || is_line_break(bytes[from]) {
        from
    } else {
        line_end(bytes, from + 1)
    }
}

/// Whether a line begins with the three bytes `GET`.
pub open spec fn starts_with_get(line: Seq<u8>) -> bool {
    line.len() >= 3 && line[0] == 71 && line[1] == 69 && line[2] == 84
}

/// The first line of `bytes`, among those that start at or after `from`,
/// that begins with `GET`. Every line break ends a line, so two breaks in a
/// row hold an empty line between them.
pub open spec fn get_line(bytes: Seq<u8>, from: int) -> Option<Seq<u8>>
    decreases bytes.len() - from,
    via get_line_decreases
{
    if from < 0 || from > bytes.len() {
        None
    } else {
        let end = line_end(bytes, from);
        if starts_with_get(bytes.subrange(from, end)) {
            Some(bytes.subrange(from, end))
        } else if end >= bytes.len() {
            None
        } else {
            get_line(bytes, end + 1)
        }
    }
}

#[via_fn]
proof fn get_line_decreases(bytes: Seq<u8>, from: int) {
    if 0 <= from <= bytes.len() {
        lemma_line_end_bounds(bytes, from);
    }
}

/// The line end lies between the start of the line and the end of the bytes.
proof fn lemma_line_end_bounds(bytes: Seq<u8>, from: int)
    requires
        0 <= from <= bytes.len(),
    ensures
        from <= line_end(bytes, from) <= bytes.len(),
    decreases bytes.len() - from,
{
    if from < bytes.len() && !is_line_break(bytes[from]) {
        lemma_line_end_bounds(bytes, from + 1);
    }
}

/// The first line of `buffer` that begins with `GET`, if there is one.
pub fn find_get_line(buffer: &[u8]) -> (line: Option<&[u8]>)
    ensures
        match line {
            Some(found) => get_line(buffer@, 0) == Some(found@),
            None => get_line(buffer@, 0) is None,
        },
{
    let mut start: usize = 0;
    loop
        invariant
            start <= buffer@.len(),
            get_line(buffer@, 0) == get_line(buffer@, start as int),
        decreases buffer@.len() - start,
    {
        let mut end = start;
        while end < buffer.len() && buffer[end] != 13 && buffer[end] != 10
            invariant
                start <= end <= buffer@.len(),
                line_end(buffer@, start as int) == line_end(buffer@, end as int),
            decreases buffer@.len() - end,
        {
            end += 1;
        }
        if end - start >= 3 && buffer[start] == 71 && buffer[start + 1] == 69 && buffer[start + 2]
            == 84 {
            return Some(slice_subrange(buffer, start, end));
        }
        if end >= buffer.len() {
            return None;
        }
        start = end + 1;
    }
}

/// `std::str::Utf8Error`: what `std::str::from_utf8` fails with. Nothing is
/// known of what a value holds.
#[verifier::external_type_specification]
#[verifier::external_body]
pub struct ExUtf8Error(Utf8Error);

/// `std::str::from_utf8`: the bytes as a string slice if they are valid
/// UTF-8, and an error if they are not. The slice has the bytes it was made
/// from.
#[verifier::external_body]
fn text_of(bytes: &[u8]) -> (text: Result<&str, Utf8Error>)
    ensures
        text is Ok <==> valid_utf8(bytes@),
        text matches Ok(decoded) ==> decoded@ == decode_utf8(bytes@),
{
    std::str::from_utf8(bytes)
}

/// Whether Unicode counts a character as white space, as
/// `char::is_whitespace` tells it.
pub uninterp spec fn is_whitespace(c: char) -> bool;

/// `char::is_whitespace`: whether the character is white space.
#[verifier::external_body]
fn char_is_whitespace(c: char) -> (space: bool)
    ensures
        space == is_whitespace(c),
{
    c.is_whitespace()
}

/// For each character of `text`, whether it is white space.
pub open spec fn white_space_marks(text: Seq<char>) -> Seq<bool> {
    text.map_values(|c: char| is_whitespace(c))
}

/// The first index at or after `from` whose mark is not `space`; the length
/// of `marks` where there is none. With a mark for each character of a text
/// that says whether it is white space, `skip(marks, from, true)` passes
/// over white space and `skip(marks, from, false)` over a word.
pub open spec fn skip(marks: Seq<bool>, from: int, space: bool) -> int
    decreases marks.len() - from,
{
    if from >= marks.len() || marks[from] != space {
        from
    } else {
        skip(marks, from + 1, space)
    }
}

/// Where the second word of a text stands, from its first character to the
/// one behind its last, given the white-space marks of the text; nothing if
/// the text has fewer than two words. Words are what white space separates.
pub open spec fn second_word(marks: Seq<bool>) -> Option<(int, int)> {
    let first = skip(marks, 0, true);
    let second = skip(marks, skip(marks, first, false), true);
    if second < marks.len() {
        Some((second, skip(marks, second, false)))
    } else {
        None
    }
}

/// The path that a request line asks for: its second word, or `/` if the
/// line has fewer than two.
pub open spec fn path_of(line: Seq<char>) -> Seq<char> {
    match second_word(white_space_marks(line)) {
        Some((start, end)) => line.subrange(start, end),
        None => seq!['/'],
    }
}

/// A skip ends between its start and the end of the marks, and where it ends
/// before the end, it ends at a mark of the other kind.
proof fn lemma_skip_bounds(marks: Seq<bool>, from: int, space: bool)
    requires
        0 <= from <= marks.len(),
    ensures
        from <= skip(marks, from, space) <= marks.len(),
        skip(marks, from, space) < marks.len() ==> marks[skip(marks, from, space)] != space,
    decreases marks.len() - from,
{
    if from < marks.len() && marks[from] == space {
        lemma_skip_bounds(marks, from + 1, space);
    }
}

/// The white-space marks of `text`, one for each character.
fn marks_of(text: &str) -> (marks: Vec<bool>)
    ensures
        marks@ == white_space_marks(text@),
{
    broadcast use vstd::string::group_string_axioms;

    let mut marks: Vec<bool> = Vec::new();
    for c in it: text.chars()
        invariant
            it.seq() == text@,
            marks@ == white_space_marks(it.seq().take(it.index() as int)),
    {
        proof {
            let seen = it.seq().take(it.index() as int);
            assert(it.seq().take(it.index() + 1) == seen.push(c));
            assert(white_space_marks(seen.push(c)) == white_space_marks(seen).push(
                is_whitespace(c),
            ));
        }
        marks.push(char_is_whitespace(c));
    }
    proof {
        assert(text@.take(text@.len() as int) == text@);
    }
    marks
}

/// The end of the skip that starts at `from`.
fn skip_from(marks: &[bool], from: usize, space: bool) -> (end: usize)
    requires
        from <= marks@.len(),
    ensures
        end == skip(marks@, from as int, space),
        from <= end <= marks@.len(),
{
    let mut end = from;
    while end < marks.len() && marks[end] == space
        invariant
            from <= end <= marks@.len(),
            skip(marks@, from as int, space) == skip(marks@, end as int, space),
        decreases marks@.len() - end,
    {
        end += 1;
    }
    end
}

/// Where the second word of a text stands, given for each of its characters
/// whether it is white space: the index of its first character and the
/// index behind its last. A word is never empty.
pub fn find_second_word(marks: &[bool]) -> (word: Option<(usize, usize)>)
    ensures
        match word {
            Some((start, end)) => second_word(marks@) == Some((start as int, end as int))
                && start < end <= marks@.len(),
            None => second_word(marks@) is None,
        },
{
    let first = skip_from(marks, 0, true);
    let first_end = skip_from(marks, first, false);
    let second = skip_from(marks, first_end, true);
    if second < marks.len() {
        let second_end = skip_from(marks, second, false);
        proof {
            lemma_skip_bounds(marks@, first_end as int, true);
            lemma_skip_bounds(marks@, second as int + 1, false);
        }
        Some((second, second_end))
    } else {
        None
    }
}

/// The path that a request line asks for: its second word, or `/`.
pub fn request_path(line: &str) -> (path: String)
    ensures
        path@ == path_of(line@),
        path@.len() > 0,
{
    let marks = marks_of(line);
    match find_second_word(marks.as_slice()) {
        Some((start, end)) => line.substring_char(start, end).to_owned(),
        None => {
            proof {
                reveal_strlit("/");
                assert("/"@ =~= seq!['/']);
            }
            "/".to_owned()
        },
    }
}

/// What the server stores and answers for a path.
pub open spec fn greeting_of(path: Seq<char>) -> Seq<char> {
    "Unicorn "@ + path
}

/// The response that carries `value`: the status line, an empty line, and
/// the value.
pub open spec fn response_of(value: Seq<char>) -> Seq<char> {
    "HTTP/1.1 200 OK\r\n\r\n"@ + value
}

/// What the server answers to the bytes of a request: nothing if no line
/// begins with `GET` or if the first such line is not valid UTF-8; else the
/// response with the greeting for the path of that line.
pub open spec fn answer_to(buffer: Seq<u8>) -> Option<Seq<char>> {
    match get_line(buffer, 0) {
        Some(line) => if valid_utf8(line) {
            Some(response_of(greeting_of(path_of(decode_utf8(line)))))
        } else {
            None
        },
        None => None,
    }
}

/// The response that carries `value`.
pub fn response(value: &str) -> (text: String)
    ensures
        text@ == response_of(value@),
{
    String::from_str("HTTP/1.1 200 OK\r\n\r\n").concat(value)
}

/// The server's answer to the bytes read off one connection. The path is
/// resolved against a store of its own, made for this request, with a time
/// to live of ten seconds; so the answer is always the greeting for the
/// path.
pub fn handle_request(buffer: &[u8]) -> (answer: Option<String>)
    ensures
        value_view(answer) == answer_to(buffer@),
{
    let line = match find_get_line(buffer) {
        Some(line) => line,
        None => {
            return None;
        },
    };
    let text = match text_of(line) {
        Ok(text) => text,
        Err(_) => {
            return None;
        },
    };
    let path = request_path(text);
    let greeting = String::from_str("Unicorn ").concat(path.as_str());
    let mut cache = InMemoryCache::new();
    let resolved = cache.resolve(
        ResolvePayload { key: path.as_str(), value: greeting.as_str(), ttl: 10 },
    );
    match resolved {
        Ok(value) => Some(response(value.as_str())),
        Err(_) => None,
    }
}

} // verus!
