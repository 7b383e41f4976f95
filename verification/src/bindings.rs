use vstd::prelude::*;

verus! {

/// What `str::to_lowercase` gives for a string (Unicode lowercase mapping).
pub uninterp spec fn lowercase_of(s: Seq<char>) -> Seq<char>;

/// Calls `str::to_lowercase`. The contract claims that the result is
/// `lowercase_of` of the input's characters, and that the empty string stays
/// empty; the Unicode case tables are not written out.
#[verifier::external_body]
pub fn lowercase(s: &str) -> (r: String)
    ensures
        r@ == lowercase_of(s@),
        s@.len() == 0 ==> r@.len() == 0,
{
    s.to_lowercase()
}

/// What `std::path::Path::file_stem` gives for a path written as a string.
pub uninterp spec fn file_stem_of(path: Seq<char>) -> Option<Seq<char>>;

/// Calls `Path::file_stem` on `path` (a `&str` path, so the stem is valid
/// UTF-8 and converts to a `String`). The contract claims that the result is
/// `file_stem_of` of the path; the component rules of `std::path` (Unix
/// separators) are not written out.
#[verifier::external_body]
pub fn file_stem(path: &str) -> (r: Option<String>)
    ensures
        r.deep_view() == file_stem_of(path@),
{
    std::path::Path::new(path).file_stem().and_then(|n| n.to_str()).map(|n| n.to_string())
}

/// What `std::path::Path::extension` gives for a path written as a string.
pub uninterp spec fn extension_of(path: Seq<char>) -> Option<Seq<char>>;

/// Calls `Path::extension` on `path`. The contract claims that the result is
/// `extension_of` of the path; the component rules of `std::path` are not
/// written out.
#[verifier::external_body]
pub fn extension(path: &str) -> (r: Option<String>)
    ensures
        r.deep_view() == extension_of(path@),
{
    std::path::Path::new(path).extension().and_then(|n| n.to_str()).map(|n| n.to_string())
}

/// What `regex::Regex::captures` gives when `pattern` is compiled and run on
/// `text`: `None` when the pattern does not compile or does not match, else
/// the text of each capture group (group 0 first), `None` for a group that
/// took no part in the match.
pub uninterp spec fn regex_captures_of(pattern: Seq<char>, text: Seq<char>) -> Option<
    Seq<Option<Seq<char>>>,
>;

/// Calls `regex::Regex::new(pattern)` and `Regex::captures(text)`. The contract
/// claims that the result is `regex_captures_of` of the two strings; the
/// matching rules of the regex crate (leftmost-first, Unicode classes) are not
/// written out.
#[verifier::external_body]
pub fn regex_captures(pattern: &str, text: &str) -> (r: Option<Vec<Option<String>>>)
    ensures
        r.deep_view() == regex_captures_of(pattern@, text@),
{
    let re = regex::Regex::new(pattern).ok()?;
    let caps = re.captures(text)?;
    Some(caps.iter().map(|m| m.map(|m| m.as_str().to_string())).collect())
}

/// Calls `rand::Rng::gen_range(0..n)` on the thread-local generator
/// (`rand::thread_rng`). The result depends on chance: the contract claims
/// only that it lies in `0..n`. `gen_range` panics on an empty range, so `n`
/// must be positive.
#[verifier::external_body]
pub fn random_below(n: usize) -> (r: usize)
    requires
        n > 0,
    ensures
        r < n,
{
    rand::Rng::gen_range(&mut rand::thread_rng(), 0..n)
}

/// The bytes that `urlencoding` leaves as they are: ASCII letters and digits
/// and `-`, `.`, `_`, `~`.
pub open spec fn is_unreserved_byte(b: u8) -> bool {
    ||| 0x30 <= b <= 0x39
    ||| 0x41 <= b <= 0x5a
    ||| 0x61 <= b <= 0x7a
    ||| b == 0x2d
    ||| b == 0x2e
    ||| b == 0x5f
    ||| b == 0x7e
}

/// The upper-case hexadecimal digit for `d` (`d < 16`).
pub open spec fn hex_digit_upper(d: u8) -> char {
    if d < 10 {
        (0x30 + d) as char
    } else {
        (0x41 + d - 10) as char
    }
}

/// Percent-encoding of a byte string: each unreserved byte stays, every other
/// byte `b` becomes `%` and two upper-case hex digits.
pub open spec fn percent_encoded(bytes: Seq<u8>) -> Seq<char>
    decreases bytes.len(),
{
    if bytes.len() == 0 {
        seq![]
    } else {
        let b = bytes[0];
        (if is_unreserved_byte(b) {
            seq![b as char]
        } else {
            seq!['%', hex_digit_upper(b / 16), hex_digit_upper(b % 16)]
        }) + percent_encoded(bytes.drop_first())
    }
}

/// Calls `urlencoding::encode`. The contract claims what that crate's source
/// does: the UTF-8 bytes of `s` are percent-encoded byte by byte, with
/// upper-case hex digits, and unreserved bytes are kept.
#[verifier::external_body]
pub fn url_encode(s: &str) -> (r: String)
    ensures
        r@ == percent_encoded(vstd::utf8::encode_utf8(s@)),
{
    urlencoding::encode(s).into_owned()
}

} // verus!
