use crate::shims::{decode_lossy, gzip, gzip_encoding, lowercase_of, utf8_lossy};
use crate::text::{
    break_index, first_break, same_text, slices, split_at, split_text, text_of, texts, to_chars,
    trim, trim_text, Delimiter,
};
use crate::types::RequestState;
use vstd::hash_map::StringHashMap;
use vstd::prelude::*;
use vstd::utf8::encode_utf8;

verus! {

/// The largest number of bytes taken from a connection in one read.
pub const FRAME_SIZE: usize = 1024;

/// The directory named on the command line: the argument that follows the
/// last `--directory` which has one, or the empty text.
pub open spec fn directory_of(args: Seq<Seq<char>>) -> Seq<char>
    decreases args.len(),
{
    if args.len() < 2 {
        Seq::empty()
    } else if args[args.len() - 2] == "--directory"@ {
        args.last()
    } else {
        directory_of(args.drop_last())
    }
}

/// Finds the file directory among the program's arguments.
pub fn get_directory(arguments: &Vec<String>) -> (directory: String)
    ensures
        directory@ == directory_of(texts(arguments@)),
{
    let mut directory = String::new();
    if arguments.len() < 2 {
        return directory;
    }
    let ghost args = texts(arguments@);
    let mut i: usize = 0;
    assert(directory_of(args.take(1)) == Seq::<char>::empty());
    while i + 1 < arguments.len()
        invariant
            i + 1 <= arguments.len(),
            args == texts(arguments@),
            directory@ == directory_of(args.take(i + 1)),
        decreases arguments.len() - i,
    {
        proof {
            let now = args.take(i + 2);
            assert(now.drop_last() =~= args.take(i + 1));
            assert(now[now.len() - 2] == arguments@[i as int]@);
            assert(now.last() == arguments@[i + 1]@);
        }
        if same_text(arguments[i].as_str(), "--directory") {
            directory = arguments[i + 1].clone();
        }
        i += 1;
    }
    assert(args.take(arguments.len() as int) =~= args);
    directory
}

/// The header that a line declares: the text before its first colon,
/// lower-cased and then trimmed, with the trimmed text after that colon.
/// A line without a colon declares none.
pub open spec fn header_entry(line: Seq<char>) -> Option<(Seq<char>, Seq<char>)> {
    let i = break_index(line, Delimiter::Char(':'));
    if 0 <= i < line.len() {
        Some((trim(lowercase_of(line.take(i))), trim(line.skip(i + 1))))
    } else {
        None
    }
}

/// The headers that a run of header lines declares. A later line replaces
/// an earlier one of the same name.
pub open spec fn headers_from(lines: Seq<Seq<char>>) -> Map<Seq<char>, Seq<char>>
    decreases lines.len(),
{
    if lines.len() == 0 {
        Map::empty()
    } else {
        let before = headers_from(lines.drop_last());
        match header_entry(lines.last()) {
            Some((name, value)) => before.insert(name, value),
            None => before,
        }
    }
}

/// The headers of a request head given by its lines: the first line is the
/// request line and declares nothing.
pub open spec fn headers_of(lines: Seq<Seq<char>>) -> Map<Seq<char>, Seq<char>> {
    if lines.len() == 0 {
        Map::empty()
    } else {
        headers_from(lines.skip(1))
    }
}

/// A header table as a map from names to values, both as characters.
pub open spec fn header_map(headers: &StringHashMap<String>) -> Map<Seq<char>, Seq<char>> {
    headers@.map_values(|value: String| value@)
}

/// Reads one header line.
pub fn parse_header(line: &str) -> (entry: Option<(String, String)>)
    ensures
        match entry {
            Some((name, value)) => header_entry(line@) == Some((name@, value@)),
            None => header_entry(line@) is None,
        },
{
    let chars = to_chars(line);
    let i = first_break(chars.as_slice(), Delimiter::Char(':'));
    if i < chars.len() {
        let raw_name = text_of(chars.as_slice(), 0, i);
        let lowered = raw_name.as_str().to_lowercase();
        let name = trim_text(lowered.as_str());
        let raw_value = text_of(chars.as_slice(), i + 1, chars.len());
        let value = trim_text(raw_value.as_str());
        Some((name, value))
    } else {
        None
    }
}

/// Builds the header table of a request head from its lines.
pub fn populate_headers_dictionary(lines: Vec<&str>) -> (headers: StringHashMap<String>)
    ensures
        header_map(&headers) == headers_of(slices(lines@)),
{
    let mut headers: StringHashMap<String> = StringHashMap::new();
    if lines.len() == 0 {
        assert(header_map(&headers) =~= Map::empty());
        return headers;
    }
    let ghost rest = slices(lines@).skip(1);
    let mut i: usize = 1;
    assert(header_map(&headers) =~= headers_from(rest.take(0)));
    while i < lines.len()
        invariant
            1 <= i <= lines.len(),
            rest == slices(lines@).skip(1),
            header_map(&headers) =~= headers_from(rest.take(i - 1)),
        decreases lines.len() - i,
    {
        proof {
            let now = rest.take(i as int);
            assert(now.drop_last() =~= rest.take(i - 1));
            assert(now.last() == lines@[i as int]@);
        }
        let ghost before = headers;
        match parse_header(lines[i]) {
            Some((name, value)) => {
                headers.insert(name, value);
                assert(header_map(&headers) =~= header_map(&before).insert(name@, value@));
            },
            None => {},
        }
        i += 1;
    }
    assert(rest.take(lines.len() - 1) =~= rest);
    headers
}

/// Turns the bytes of one read into the request text. No bytes mean that the
/// peer has closed the connection.
pub fn get_request(frame: &[u8]) -> (request: Option<String>)
    ensures
        match request {
            Some(text) => frame@.len() > 0 && text@ == utf8_lossy(frame@),
            None => frame@.len() == 0,
        },
{
    if frame.len() == 0 {
        None
    } else {
        Some(decode_lossy(frame))
    }
}

/// The content encodings that a response can be given.
pub open spec fn supported_encodings() -> Seq<Seq<char>> {
    seq!["gzip"@]
}

/// The first token which, once trimmed, names a supported encoding.
pub open spec fn first_supported(tokens: Seq<Seq<char>>) -> Option<Seq<char>>
    decreases tokens.len(),
{
    if tokens.len() == 0 {
        None
    } else if supported_encodings().contains(trim(tokens[0])) {
        Some(trim(tokens[0]))
    } else {
        first_supported(tokens.drop_first())
    }
}

/// The encoding chosen for an `Accept-Encoding` value. A value without a
/// comma is one token and must name a supported encoding as it stands. A
/// list is searched in the client's order, each token trimmed, and the first
/// supported one is chosen.
pub open spec fn negotiated(accept: Seq<char>) -> Option<Seq<char>> {
    let tokens = split_at(accept, Delimiter::Char(','));
    if tokens.len() == 1 {
        if supported_encodings().contains(tokens[0]) {
            Some(tokens[0])
        } else {
            None
        }
    } else {
        first_supported(tokens)
    }
}

/// In a list of tokens, the first one that names a supported encoding once
/// trimmed is the one chosen, whatever follows it.
pub proof fn law_first_match_wins(tokens: Seq<Seq<char>>, i: int)
    requires
        0 <= i < tokens.len(),
        supported_encodings().contains(trim(tokens[i])),
        forall|j: int| 0 <= j < i ==> !supported_encodings().contains(trim(#[trigger] tokens[j])),
    ensures
        first_supported(tokens) == Some(trim(tokens[i])),
    decreases i,
{
    if i > 0 {
        assert(!supported_encodings().contains(trim(tokens[0])));
        law_first_match_wins(tokens.drop_first(), i - 1);
    }
}

/// A list of tokens of which none names a supported encoding selects none.
pub proof fn law_no_match_selects_none(tokens: Seq<Seq<char>>)
    requires
        forall|j: int|
            0 <= j < tokens.len() ==> !supported_encodings().contains(trim(#[trigger] tokens[j])),
    ensures
        first_supported(tokens) is None,
    decreases tokens.len(),
{
    if tokens.len() > 0 {
        assert(!supported_encodings().contains(trim(tokens[0])));
        law_no_match_selects_none(tokens.drop_first());
    }
}

/// Whatever the client sends, an encoding that is chosen is a supported one.
pub proof fn law_negotiated_is_supported(accept: Seq<char>)
    ensures
        negotiated(accept) matches Some(name) ==> supported_encodings().contains(name),
{
    let tokens = split_at(accept, Delimiter::Char(','));
    if tokens.len() != 1 {
        lemma_first_supported(tokens);
    }
}

/// A token chosen from a list is supported.
proof fn lemma_first_supported(tokens: Seq<Seq<char>>)
    ensures
        first_supported(tokens) matches Some(name) ==> supported_encodings().contains(name),
    decreases tokens.len(),
{
    if tokens.len() > 0 && !supported_encodings().contains(trim(tokens[0])) {
        lemma_first_supported(tokens.drop_first());
    }
}

/// Whether a token names a supported encoding.
pub fn is_supported(token: &str) -> (yes: bool)
    ensures
        yes == supported_encodings().contains(token@),
{
    let yes = same_text(token, "gzip");
    proof {
        if yes {
            assert(supported_encodings()[0] == token@);
        }
    }
    yes
}

/// Chooses the response encoding for an `Accept-Encoding` value.
pub fn supported_encoding(accepted_encoding: &String) -> (chosen: Option<String>)
    ensures
        match chosen {
            Some(name) => negotiated(accepted_encoding@) == Some(name@),
            None => negotiated(accepted_encoding@) is None,
        },
{
    let chars = to_chars(accepted_encoding.as_str());
    let encodings = split_text(chars.as_slice(), Delimiter::Char(','));
    let ghost tokens = texts(encodings@);
    if encodings.len() == 1 {
        if is_supported(encodings[0].as_str()) {
            return Some(encodings[0].clone());
        }
        return None;
    }
    let mut i: usize = 0;
    assert(tokens.skip(0) =~= tokens);
    while i < encodings.len()
        invariant
            i <= encodings.len(),
            encodings.len() != 1,
            tokens == texts(encodings@),
            tokens == split_at(accepted_encoding@, Delimiter::Char(',')),
            first_supported(tokens) == first_supported(tokens.skip(i as int)),
        decreases encodings.len() - i,
    {
        let token = trim_text(encodings[i].as_str());
        assert(tokens.skip(i as int)[0] == encodings@[i as int]@);
        if is_supported(token.as_str()) {
            return Some(token);
        }
        assert(tokens.skip(i as int).drop_first() =~= tokens.skip(i + 1));
        i += 1;
    }
    None
}

/// Compresses a text's UTF-8 bytes as gzip. `None` reports that the encoder
/// failed.
pub fn compress_string(input: &str) -> (packed: Option<Vec<u8>>)
    ensures
        gzip_encoding(encode_utf8(input@)) == (match packed {
            Some(v) => Some(v@),
            None => None,
        }),
{
    gzip(input.as_bytes())
}

/// The decimal digit for `d`.
pub open spec fn digit(d: int) -> char {
    if d == 0 {
        '0'
    } else if d == 1 {
        '1'
    } else if d == 2 {
        '2'
    } else if d == 3 {
        '3'
    } else if d == 4 {
        '4'
    } else if d == 5 {
        '5'
    } else if d == 6 {
        '6'
    } else if d == 7 {
        '7'
    } else if d == 8 {
        '8'
    } else {
        '9'
    }
}

/// A number in decimal, without leading zeros.
pub open spec fn decimal(n: nat) -> Seq<char>
    decreases n,
{
    if n < 10 {
        seq![digit(n as int)]
    } else {
        decimal(n / 10).push(digit((n % 10) as int))
    }
}

/// The number that a decimal digit stands for.
pub open spec fn digit_value(c: char) -> nat {
    if c == '1' {
        1
    } else if c == '2' {
        2
    } else if c == '3' {
        3
    } else if c == '4' {
        4
    } else if c == '5' {
        5
    } else if c == '6' {
        6
    } else if c == '7' {
        7
    } else if c == '8' {
        8
    } else if c == '9' {
        9
    } else {
        0
    }
}

/// The number that a text of decimal digits stands for.
pub open spec fn number_of(digits: Seq<char>) -> nat
    decreases digits.len(),
{
    if digits.len() == 0 {
        0
    } else {
        number_of(digits.drop_last()) * 10 + digit_value(digits.last())
    }
}

/// The decimal text of a number reads back as that number, and has no
/// leading zero unless the number is zero.
pub proof fn law_decimal_reads_back(n: nat)
    ensures
        number_of(decimal(n)) == n,
        decimal(n).len() >= 1,
        n > 0 ==> decimal(n)[0] != '0',
    decreases n,
{
    if n < 10 {
        assert(decimal(n).drop_last() =~= Seq::<char>::empty());
        assert(number_of(decimal(n).drop_last()) == 0);
    } else {
        law_decimal_reads_back(n / 10);
        assert(decimal(n).drop_last() =~= decimal(n / 10));
    }
}

fn digit_char(d: usize) -> (c: char)
    requires
        d < 10,
    ensures
        c == digit(d as int),
{
    if d == 0 {
        '0'
    } else if d == 1 {
        '1'
    } else if d == 2 {
        '2'
    } else if d == 3 {
        '3'
    } else if d == 4 {
        '4'
    } else if d == 5 {
        '5'
    } else if d == 6 {
        '6'
    } else if d == 7 {
        '7'
    } else if d == 8 {
        '8'
    } else {
        '9'
    }
}

/// Appends a number in decimal to a text.
pub fn push_decimal(out: &mut String, n: usize)
    ensures
        final(out)@ == old(out)@ + decimal(n as nat),
    decreases n,
{
    if n >= 10 {
        push_decimal(out, n / 10);
    }
    out.push(digit_char(n % 10));
    assert(out@ =~= old(out)@ + decimal(n as nat));
}

/// The status line for a status code. A code outside the table gets the
/// line of 500.
pub open spec fn status_line(code: Seq<char>) -> Seq<char> {
    if code == "200"@ {
        "HTTP/1.1 200 OK\r\n"@
    } else if code == "201"@ {
        "HTTP/1.1 201 Created\r\n"@
    } else if code == "400"@ {
        "HTTP/1.1 400 Bad Request\r\n"@
    } else if code == "404"@ {
        "HTTP/1.1 404 Not Found\r\n"@
    } else {
        "HTTP/1.1 500 Internal Server Error\r\n"@
    }
}

/// The content type of a response: the one given, or plain text.
pub open spec fn content_type_or_default(content_type: Option<Seq<char>>) -> Seq<char> {
    match content_type {
        Some(t) => t,
        None => "text/plain"@,
    }
}

/// The `Connection` header line of a response, if it carries one.
pub open spec fn connection_header(close: bool) -> Seq<char> {
    if close {
        "\r\nConnection: close"@
    } else {
        Seq::empty()
    }
}

/// The `Content-Encoding` header line of a response, if it carries one.
pub open spec fn encoding_header(encoding: Option<Seq<char>>) -> Seq<char> {
    match encoding {
        Some(name) => "\r\nContent-Encoding: "@ + name,
        None => Seq::empty(),
    }
}

/// The head of a response, up to and including the blank line: status line,
/// `Content-Type`, `Content-Length`, then `Connection: close` and
/// `Content-Encoding` where they apply.
pub open spec fn response_head(
    code: Seq<char>,
    content_type: Option<Seq<char>>,
    length: nat,
    close: bool,
    encoding: Option<Seq<char>>,
) -> Seq<char> {
    status_line(code) + "Content-Type: "@ + content_type_or_default(content_type)
        + "\r\nContent-Length: "@ + decimal(length) + connection_header(close) + encoding_header(
        encoding,
    ) + "\r\n\r\n"@
}

/// The bytes of a response that carries `payload` as its body. The length
/// announced is that of the payload as it is sent.
pub open spec fn response(
    code: Seq<char>,
    payload: Seq<u8>,
    content_type: Option<Seq<char>>,
    close: bool,
    encoding: Option<Seq<char>>,
) -> Seq<u8> {
    encode_utf8(response_head(code, content_type, payload.len(), close, encoding)) + payload
}

/// The response sent when the body could not be compressed: 500, empty and
/// unencoded.
pub open spec fn compression_failure(close: bool) -> Seq<u8> {
    response("500"@, Seq::empty(), None, close, None)
}

/// The response for a body whose compression gave `packed`.
pub open spec fn encoded_response(
    code: Seq<char>,
    packed: Option<Seq<u8>>,
    content_type: Option<Seq<char>>,
    close: bool,
    encoding: Seq<char>,
) -> Seq<u8> {
    match packed {
        Some(payload) => response(code, payload, content_type, close, Some(encoding)),
        None => compression_failure(close),
    }
}

/// The answer to a request with the given status, body and content type,
/// for a connection that is to close or not and a client that sent `accept`
/// as its `Accept-Encoding`. Without a negotiated encoding the body is sent
/// as it stands. With one, the answer carries the compressed body, or
/// reports that compression failed.
pub open spec fn reply(
    code: Seq<char>,
    body: Seq<char>,
    content_type: Option<Seq<char>>,
    close: bool,
    accept: Seq<char>,
) -> Seq<u8> {
    match negotiated(accept) {
        None => response(code, encode_utf8(body), content_type, close, None),
        Some(name) => encoded_response(
            code,
            gzip_encoding(encode_utf8(body)),
            content_type,
            close,
            name,
        ),
    }
}

/// Whether `bytes` are the answer to such a request.
pub open spec fn is_reply(
    bytes: Seq<u8>,
    code: Seq<char>,
    body: Seq<char>,
    content_type: Option<Seq<char>>,
    close: bool,
    accept: Seq<char>,
) -> bool {
    bytes == reply(code, body, content_type, close, accept)
}

/// Whether the body of an answer can be sent as negotiated: no encoding was
/// negotiated, or the body could be compressed.
pub open spec fn body_can_be_sent(body: Seq<char>, accept: Seq<char>) -> bool {
    negotiated(accept) is None || gzip_encoding(encode_utf8(body)) is Some
}

/// The encoding of a text is that of its parts, one after the other.
pub proof fn lemma_encode_concat(a: Seq<char>, b: Seq<char>)
    ensures
        encode_utf8(a + b) == encode_utf8(a) + encode_utf8(b),
    decreases a.len(),
{
    if a.len() == 0 {
        assert(a + b =~= b);
        assert(encode_utf8(a) + encode_utf8(b) =~= encode_utf8(b));
    } else {
        lemma_encode_concat(a.drop_first(), b);
        assert((a + b).drop_first() =~= a.drop_first() + b);
        assert((a + b)[0] == a[0]);
        assert(encode_utf8(a + b) =~= encode_utf8(a) + encode_utf8(b));
    }
}

/// Every response begins with the bytes of its status line.
pub proof fn law_response_begins_with_status_line(
    code: Seq<char>,
    payload: Seq<u8>,
    content_type: Option<Seq<char>>,
    close: bool,
    encoding: Option<Seq<char>>,
)
    ensures
        encode_utf8(status_line(code)).is_prefix_of(
            response(code, payload, content_type, close, encoding),
        ),
{
    let rest = "Content-Type: "@ + content_type_or_default(content_type) + "\r\nContent-Length: "@
        + decimal(payload.len()) + connection_header(close) + encoding_header(encoding)
        + "\r\n\r\n"@;
    let head = response_head(code, content_type, payload.len(), close, encoding);
    assert(head =~= status_line(code) + rest);
    lemma_encode_concat(status_line(code), rest);
    let whole = response(code, payload, content_type, close, encoding);
    let line = encode_utf8(status_line(code));
    assert(whole =~= line + (encode_utf8(rest) + payload));
    assert(whole.subrange(0, line.len() as int) =~= line);
}

/// The answer to a request begins with the status line of the status asked
/// for, with or without a negotiated encoding, as long as the body can be
/// sent as negotiated. Where it cannot, the answer begins with the status
/// line of 500.
pub proof fn law_reply_begins_with_status_line(
    code: Seq<char>,
    body: Seq<char>,
    content_type: Option<Seq<char>>,
    close: bool,
    accept: Seq<char>,
)
    ensures
        body_can_be_sent(body, accept) ==> encode_utf8(status_line(code)).is_prefix_of(
            reply(code, body, content_type, close, accept),
        ),
        !body_can_be_sent(body, accept) ==> encode_utf8(status_line("500"@)).is_prefix_of(
            reply(code, body, content_type, close, accept),
        ),
{
    match negotiated(accept) {
        None => {
            law_response_begins_with_status_line(code, encode_utf8(body), content_type, close, None);
        },
        Some(name) => {
            match gzip_encoding(encode_utf8(body)) {
                Some(packed) => {
                    law_response_begins_with_status_line(
                        code,
                        packed,
                        content_type,
                        close,
                        Some(name),
                    );
                },
                None => {
                    law_response_begins_with_status_line(
                        "500"@,
                        Seq::empty(),
                        None,
                        close,
                        None,
                    );
                },
            }
        },
    }
}

/// Where an encoding is negotiated and the body can be compressed, the head
/// names that encoding and announces the length of the compressed bytes, not
/// that of the body before compression, and the compressed bytes end the
/// response.
pub proof fn law_length_of_compressed_body(
    code: Seq<char>,
    body: Seq<char>,
    content_type: Option<Seq<char>>,
    close: bool,
    accept: Seq<char>,
)
    requires
        negotiated(accept) is Some,
        gzip_encoding(encode_utf8(body)) is Some,
    ensures
        reply(code, body, content_type, close, accept) == encode_utf8(
            response_head(
                code,
                content_type,
                gzip_encoding(encode_utf8(body)).unwrap().len(),
                close,
                negotiated(accept),
            ),
        ) + gzip_encoding(encode_utf8(body)).unwrap(),
{
}

/// A request that negotiates no encoding is answered with its body as it
/// stands, and the head names no content encoding.
pub proof fn law_identity_without_negotiation(
    code: Seq<char>,
    body: Seq<char>,
    content_type: Option<Seq<char>>,
    close: bool,
    accept: Seq<char>,
)
    requires
        negotiated(accept) is None,
    ensures
        encoding_header(None) == Seq::<char>::empty(),
        reply(code, body, content_type, close, accept) == encode_utf8(
            response_head(code, content_type, encode_utf8(body).len(), close, None),
        ) + encode_utf8(body),
{
}

/// The characters of an optional string slice.
pub open spec fn opt_text(t: Option<&str>) -> Option<Seq<char>> {
    match t {
        Some(s) => Some(s@),
        None => None,
    }
}

fn status_text(http_code: &str) -> (line: &'static str)
    ensures
        line@ == status_line(http_code@),
{
    if same_text(http_code, "200") {
        "HTTP/1.1 200 OK\r\n"
    } else if same_text(http_code, "201") {
        "HTTP/1.1 201 Created\r\n"
    } else if same_text(http_code, "400") {
        "HTTP/1.1 400 Bad Request\r\n"
    } else if same_text(http_code, "404") {
        "HTTP/1.1 404 Not Found\r\n"
    } else {
        "HTTP/1.1 500 Internal Server Error\r\n"
    }
}

/// Appends bytes to a buffer.
pub fn append_bytes(out: &mut Vec<u8>, more: &[u8])
    ensures
        final(out)@ == old(out)@ + more@,
{
    let mut i: usize = 0;
    while i < more.len()
        invariant
            i <= more.len(),
            out@ =~= old(out)@ + more@.take(i as int),
        decreases more.len() - i,
    {
        out.push(more[i]);
        i += 1;
    }
    assert(more@.take(more@.len() as int) =~= more@);
}

/// Frames a response around a payload that is sent as it stands.
pub fn frame_response(
    http_code: &str,
    payload: &[u8],
    content_type: Option<&str>,
    close: bool,
    encoding: Option<&str>,
) -> (bytes: Vec<u8>)
    ensures
        bytes@ == response(http_code@, payload@, opt_text(content_type), close, opt_text(encoding)),
{
    let mut head = String::from_str(status_text(http_code));
    head.append("Content-Type: ");
    match content_type {
        Some(t) => head.append(t),
        None => head.append("text/plain"),
    }
    head.append("\r\nContent-Length: ");
    push_decimal(&mut head, payload.len());
    if close {
        head.append("\r\nConnection: close");
    }
    assert(head@ =~= status_line(http_code@) + "Content-Type: "@ + content_type_or_default(
        opt_text(content_type),
    ) + "\r\nContent-Length: "@ + decimal(payload@.len()) + connection_header(close));
    match encoding {
        Some(name) => {
            head.append("\r\nContent-Encoding: ");
            head.append(name);
        },
        None => {},
    }
    head.append("\r\n\r\n");
    assert(head@ =~= response_head(
        http_code@,
        opt_text(content_type),
        payload@.len(),
        close,
        opt_text(encoding),
    ));
    let mut bytes: Vec<u8> = Vec::new();
    append_bytes(&mut bytes, head.as_str().as_bytes());
    append_bytes(&mut bytes, payload);
    assert(bytes@ =~= encode_utf8(head@) + payload@);
    bytes
}

/// Frames the response for a body that was to be compressed, given what the
/// compression returned.
pub fn frame_encoded(
    http_code: &str,
    packed: Option<Vec<u8>>,
    content_type: Option<&str>,
    close: bool,
    encoding: &str,
) -> (bytes: Vec<u8>)
    ensures
        bytes@ == encoded_response(
            http_code@,
            match packed {
                Some(v) => Some(v@),
                None => None,
            },
            opt_text(content_type),
            close,
            encoding@,
        ),
{
    match packed {
        Some(payload) => frame_response(
            http_code,
            payload.as_slice(),
            content_type,
            close,
            Some(encoding),
        ),
        None => {
            let empty: Vec<u8> = Vec::new();
            let bytes = frame_response("500", empty.as_slice(), None, close, None);
            assert(empty@ =~= Seq::<u8>::empty());
            bytes
        },
    }
}

/// Builds the bytes of a response: the body is compressed when the request
/// negotiated an encoding, and the head announces the length of the body as
/// it is sent.
pub fn return_http_response(
    http_code: &str,
    response_body: &str,
    content_type: Option<&str>,
    request_context: &RequestState,
) -> (bytes: Vec<u8>)
    ensures
        is_reply(
            bytes@,
            http_code@,
            response_body@,
            opt_text(content_type),
            request_context.close_connection,
            request_context.accept_encoding@,
        ),
{
    match supported_encoding(&request_context.accept_encoding) {
        Some(usable_encoding) => {
            let packed = compress_string(response_body);
            frame_encoded(
                http_code,
                packed,
                content_type,
                request_context.close_connection,
                usable_encoding.as_str(),
            )
        },
        None => frame_response(
            http_code,
            response_body.as_bytes(),
            content_type,
            request_context.close_connection,
            None,
        ),
    }
}

} // verus!
