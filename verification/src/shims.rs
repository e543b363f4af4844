use flate2::write::GzEncoder;
use flate2::Compression;
use std::io::Write;
use vstd::prelude::*;

verus! {

/// Whether a character counts as whitespace for trimming and for splitting a
/// line into words: the code points with the Unicode `White_Space` property.
pub open spec fn white_space(c: char) -> bool {
    let u = c as u32;
    ||| 0x09 <= u <= 0x0D
    ||| u == 0x20
    ||| u == 0x85
    ||| u == 0xA0
    ||| u == 0x1680
    ||| 0x2000 <= u <= 0x200A
    ||| u == 0x2028
    ||| u == 0x2029
    ||| u == 0x202F
    ||| u == 0x205F
    ||| u == 0x3000
}

/// `char::is_whitespace` is documented to tell whether a character has the
/// `White_Space` property. Taken on trust: it agrees with the table of
/// [`white_space`].
pub assume_specification[ char::is_whitespace ](c: char) -> (b: bool)
    ensures
        b == white_space(c),
;

/// The lower-case form that `str::to_lowercase` gives a text.
pub uninterp spec fn lowercase_of(s: Seq<char>) -> Seq<char>;

/// `str::to_lowercase` is taken on trust to compute [`lowercase_of`], a
/// function of the characters alone.
pub assume_specification[ str::to_lowercase ](s: &str) -> (lowered: String)
    ensures
        lowered@ == lowercase_of(s@),
;

/// `String::push` appends one character.
pub assume_specification[ String::push ](s: &mut String, c: char)
    ensures
        final(s)@ == old(s)@.push(c),
;

/// The text that lossy UTF-8 decoding gives a byte sequence: well-formed
/// parts decoded, each ill-formed part replaced by U+FFFD.
pub uninterp spec fn utf8_lossy(bytes: Seq<u8>) -> Seq<char>;

/// Calls `String::from_utf8_lossy`, which never fails. Taken on trust: the
/// result is [`utf8_lossy`] of the bytes.
#[verifier::external_body]
pub(crate) fn decode_lossy(bytes: &[u8]) -> (text: String)
    ensures
        text@ == utf8_lossy(bytes@),
{
    String::from_utf8_lossy(bytes).into_owned()
}

/// What `flate2` makes of a payload at its default compression level, with
/// the default header (no name, no timestamp): the gzip member, or `None`
/// where the encoder reports an error. The encoder works in memory on the
/// payload alone, so its outcome is a function of the payload.
pub uninterp spec fn gzip_encoding(data: Seq<u8>) -> Option<Seq<u8>>;

/// Runs `flate2::write::GzEncoder` over an in-memory buffer: `new`, one
/// `write_all`, then `finish`. Taken on trust: the outcome, an error
/// included, is [`gzip_encoding`] of the payload. Nothing is claimed about
/// which payloads are encoded without error.
#[verifier::external_body]
pub(crate) fn gzip(data: &[u8]) -> (packed: Option<Vec<u8>>)
    ensures
        gzip_encoding(data@) == (match packed {
            Some(v) => Some(v@),
            None => None,
        }),
{
    let mut encoder = GzEncoder::new(Vec::new(), Compression::default());
    match encoder.write_all(data) {
        Ok(()) => encoder.finish().ok(),
        Err(_) => None,
    }
}

} // verus!
