use crate::text::{
    find, find_text, lines, slices, split_lines, split_words, text_of, texts, to_chars, words,
};
use crate::types::{ParseError, ParsedRequest, Request};
use crate::utilities::{headers_of, populate_headers_dictionary};
use vstd::prelude::*;
use vstd::slice::slice_subrange;

verus! {

/// The blank line that ends the head of a request.
pub open spec fn separator() -> Seq<char> {
    "\r\n\r\n"@
}

/// The head of a request text: what stands before the first blank line, or
/// all of it where there is none.
pub open spec fn head_of(text: Seq<char>) -> Seq<char> {
    match find(text, separator()) {
        Some(i) => text.take(i),
        None => text,
    }
}

/// The body of a request text: what follows the first blank line.
pub open spec fn body_of(text: Seq<char>) -> Seq<char> {
    match find(text, separator()) {
        Some(i) => text.skip(i + separator().len()),
        None => Seq::empty(),
    }
}

/// The request line: the first line of the head, empty where the head has
/// no line.
pub open spec fn request_line(text: Seq<char>) -> Seq<char> {
    let head = lines(head_of(text));
    if head.len() > 0 {
        head[0]
    } else {
        Seq::empty()
    }
}

/// Whether the request line consists of method, target and version.
pub open spec fn well_formed(text: Seq<char>) -> bool {
    words(request_line(text)).len() == 3
}

/// The request that a well-formed text is parsed to.
pub open spec fn request_of(text: Seq<char>) -> Request {
    Request {
        method: words(request_line(text))[0],
        target: words(request_line(text))[1],
        headers: headers_of(lines(head_of(text))),
        body: body_of(text),
    }
}

/// Borrows every string of a vector.
pub fn borrow_all(owned: &Vec<String>) -> (borrowed: Vec<&str>)
    ensures
        slices(borrowed@) == texts(owned@),
{
    let mut borrowed: Vec<&str> = Vec::new();
    let mut i: usize = 0;
    while i < owned.len()
        invariant
            i <= owned.len(),
            slices(borrowed@) =~= texts(owned@).take(i as int),
        decreases owned.len() - i,
    {
        let piece = owned[i].as_str();
        assert(slices(borrowed@.push(piece)) =~= slices(borrowed@).push(piece@));
        borrowed.push(piece);
        i += 1;
    }
    assert(texts(owned@).take(owned.len() as int) =~= texts(owned@));
    borrowed
}

/// Parses the text of one request.
pub fn parse_request(text: &str) -> (parsed: Result<ParsedRequest, ParseError>)
    ensures
        match parsed {
            Ok(request) => well_formed(text@) && request@ == request_of(text@),
            Err(ParseError::MalformedRequestLine) => !well_formed(text@),
        },
{
    let chars = to_chars(text);
    let mark = to_chars("\r\n\r\n");
    let (head_end, body_start) = match find_text(chars.as_slice(), mark.as_slice()) {
        Some(i) => (i, i + mark.len()),
        None => (chars.len(), chars.len()),
    };
    let body = text_of(chars.as_slice(), body_start, chars.len());
    let head = slice_subrange(chars.as_slice(), 0, head_end);
    assert(head@ =~= head_of(text@));
    let head_lines = split_lines(head);
    assert(texts(head_lines@) == lines(head_of(text@)));
    let first: Vec<char> = if head_lines.len() > 0 {
        to_chars(head_lines[0].as_str())
    } else {
        Vec::new()
    };
    assert(first@ =~= request_line(text@));
    let parts = split_words(first.as_slice());
    if parts.len() != 3 {
        return Err(ParseError::MalformedRequestLine);
    }
    let headers = populate_headers_dictionary(borrow_all(&head_lines));
    let request = ParsedRequest {
        method: parts[0].clone(),
        target: parts[1].clone(),
        headers,
        body,
    };
    assert(body@ =~= body_of(text@));
    Ok(request)
}

} // verus!
