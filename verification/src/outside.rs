//! What the library has from elsewhere: text forms from `std`, URL parsing from
//! `url`, base64 from `base64`, JSON strings from `serde_json`, MIME types from
//! `mime_guess`, PNG files from `image`, regular expressions from `regex` and
//! random bytes from `rand`. Each function here hands one call on and says what
//! is relied on of it; nothing here is proved.

use base64::Engine as _;
use crate::text::{alnum, ascii_lower, ascii_upper, digit, opt_text};
use rand::Rng;
use vstd::prelude::*;
use vstd::utf8::{decode_utf8, valid_utf8};

verus! {

// ---------------------------------------------------------------------------
// Letter case
// ---------------------------------------------------------------------------

/// The Unicode lower-case form of a text.
pub uninterp spec fn lowercase(s: Seq<char>) -> Seq<char>;

/// Two words with a space between them.
pub open spec fn spaced(a: Seq<char>, b: Seq<char>) -> Seq<char> {
    a + seq![' '] + b
}

/// Whether every character is ASCII.
pub open spec fn ascii_text(s: Seq<char>) -> bool {
    forall|i: int| 0 <= i < s.len() ==> (#[trigger] s[i] as u32) < 128
}

pub open spec fn digits_only(s: Seq<char>) -> bool {
    forall|i: int| 0 <= i < s.len() ==> digit(#[trigger] s[i])
}

/// `str::to_lowercase`. It is a function of the text alone. On ASCII text it
/// maps the letters `A` to `Z` and nothing else. A space followed by digits
/// has no letter case, and ends the word before it, so such a tail is kept and
/// the rest is mapped as it would be alone.
#[verifier::external_body]
pub(crate) fn to_lowercase(s: &str) -> (r: String)
    ensures
        r@ == lowercase(s@),
        ascii_text(s@) ==> r@ == ascii_lower(s@),
        forall|a: Seq<char>, d: Seq<char>|
            s@ == #[trigger] spaced(a, d) && digits_only(d) ==> r@ == spaced(lowercase(a), d),
{
    s.to_lowercase()
}

/// The Unicode upper-case form of a text.
pub uninterp spec fn uppercase(s: Seq<char>) -> Seq<char>;

/// `str::to_uppercase`. It is a function of the text alone. On ASCII text it
/// maps the letters `a` to `z` and nothing else.
#[verifier::external_body]
pub(crate) fn to_uppercase(s: &str) -> (r: String)
    ensures
        r@ == uppercase(s@),
        ascii_text(s@) ==> r@ == ascii_upper(s@),
{
    s.to_uppercase()
}

/// The Unicode letters and numbers.
pub uninterp spec fn letter_or_number(c: char) -> bool;

/// `char::is_alphanumeric`. It is a function of the character alone; among the
/// ASCII characters it holds of the letters and digits.
#[verifier::external_body]
pub(crate) fn is_letter_or_number(c: char) -> (r: bool)
    ensures
        r == letter_or_number(c),
        (c as u32) < 128 ==> r == alnum(c),
{
    c.is_alphanumeric()
}

// ---------------------------------------------------------------------------
// URLs
// ---------------------------------------------------------------------------

/// The host of a parsed URL.
pub enum UrlHost {
    Absent,
    /// A domain, or an opaque host.
    Domain(String),
    /// An IPv4 address in dotted form.
    V4(String),
    /// An IPv6 address without brackets.
    V6(String),
}

/// The parts of a parsed URL that the library reads.
pub struct UrlParts {
    pub scheme: String,
    pub host: UrlHost,
    /// The host as it stands in the serialized URL.
    pub host_str: Option<String>,
    /// The port, when it is not the scheme's default.
    pub port: Option<u16>,
    pub path: String,
}

pub enum UrlHostV {
    Absent,
    Domain(Seq<char>),
    V4(Seq<char>),
    V6(Seq<char>),
}

pub struct UrlV {
    pub scheme: Seq<char>,
    pub host: UrlHostV,
    pub host_str: Option<Seq<char>>,
    pub port: Option<u16>,
    pub path: Seq<char>,
}

impl View for UrlHost {
    type V = UrlHostV;

    open spec fn view(&self) -> UrlHostV {
        match self {
            UrlHost::Absent => UrlHostV::Absent,
            UrlHost::Domain(s) => UrlHostV::Domain(s@),
            UrlHost::V4(s) => UrlHostV::V4(s@),
            UrlHost::V6(s) => UrlHostV::V6(s@),
        }
    }
}

impl View for UrlParts {
    type V = UrlV;

    open spec fn view(&self) -> UrlV {
        UrlV {
            scheme: self.scheme@,
            host: self.host@,
            host_str: opt_text(self.host_str),
            port: self.port,
            path: self.path@,
        }
    }
}

/// The parts of the URL that a text spells, by the WHATWG rules; `None` when
/// it spells none.
pub uninterp spec fn url_of(s: Seq<char>) -> Option<UrlV>;

/// `url::Url::parse`, with the parts read through `Url::scheme`, `Url::host`,
/// `Url::host_str`, `Url::port` and `Url::path`. Parsing takes no base and no
/// other state, so the parts, or that there are none, are a function of the
/// text alone.
#[verifier::external_body]
pub(crate) fn parse_url(s: &str) -> (r: Option<UrlParts>)
    ensures
        match r {
            Some(u) => url_of(s@) == Some(u@),
            None => url_of(s@) is None,
        },
{
    let u = url::Url::parse(s).ok()?;
    let host = match u.host() {
        None => UrlHost::Absent,
        Some(url::Host::Domain(d)) => UrlHost::Domain(d.to_string()),
        Some(url::Host::Ipv4(a)) => UrlHost::V4(a.to_string()),
        Some(url::Host::Ipv6(a)) => UrlHost::V6(a.to_string()),
    };
    let scheme = u.scheme().to_string();
    let host_str = u.host_str().map(|h| h.to_string());
    Some(UrlParts { scheme, host, host_str, port: u.port(), path: u.path().to_string() })
}

// ---------------------------------------------------------------------------
// Text forms
// ---------------------------------------------------------------------------

/// A text in quotes with the escapes of Rust's `Debug` form.
pub uninterp spec fn debug_text(s: Seq<char>) -> Seq<char>;

/// The `Debug` form of `str`, by `format!`. It is a function of the text alone.
#[verifier::external_body]
pub(crate) fn debug_form(s: &str) -> (r: String)
    ensures
        r@ == debug_text(s@),
{
    format!("{:?}", s)
}

/// The text that bytes spell in UTF-8, with what is malformed replaced.
pub uninterp spec fn lossy_text(b: Seq<u8>) -> Seq<char>;

/// `String::from_utf8_lossy`. It is a function of the bytes alone, and gives
/// the very text that valid UTF-8 encodes.
#[verifier::external_body]
pub(crate) fn text_lossy(b: &Vec<u8>) -> (r: String)
    ensures
        r@ == lossy_text(b@),
        valid_utf8(b@) ==> r@ == decode_utf8(b@),
{
    String::from_utf8_lossy(b).into_owned()
}

/// `String::from_utf8`. It succeeds on exactly the valid encodings, with the
/// text that they encode.
#[verifier::external_body]
pub(crate) fn text_strict(b: Vec<u8>) -> (r: Option<String>)
    ensures
        match r {
            Some(s) => valid_utf8(b@) && s@ == decode_utf8(b@),
            None => !valid_utf8(b@),
        },
{
    String::from_utf8(b).ok()
}

// ---------------------------------------------------------------------------
// Base64
// ---------------------------------------------------------------------------

/// The bytes that a text stands for in standard base64, or the words of the
/// decoder's complaint.
pub uninterp spec fn base64_bytes(s: Seq<char>) -> Result<Seq<u8>, Seq<char>>;

/// The standard base64 form of bytes.
pub uninterp spec fn base64_text(b: Seq<u8>) -> Seq<char>;

/// The URL-safe base64 form of bytes, without padding.
pub uninterp spec fn base64_url_text(b: Seq<u8>) -> Seq<char>;

pub open spec fn bytes_result(r: Result<Vec<u8>, String>) -> Result<Seq<u8>, Seq<char>> {
    match r {
        Ok(v) => Ok(v@),
        Err(e) => Err(e@),
    }
}

/// `decode` of `base64::engine::general_purpose::STANDARD`, with the error by
/// its `Display` form. Both are functions of the text alone.
#[verifier::external_body]
pub(crate) fn base64_decode(s: &str) -> (r: Result<Vec<u8>, String>)
    ensures
        bytes_result(r) == base64_bytes(s@),
{
    base64::engine::general_purpose::STANDARD.decode(s.as_bytes()).map_err(|e| e.to_string())
}

/// `encode` of `base64::engine::general_purpose::STANDARD`. It is a function of
/// the bytes alone, and decoding it gives them back. The encoder's computation
/// of the length cannot overflow, as a vector holds at most `isize::MAX` bytes.
#[verifier::external_body]
pub(crate) fn base64_encode(b: &Vec<u8>) -> (r: String)
    ensures
        r@ == base64_text(b@),
        base64_bytes(r@) is Ok && base64_bytes(r@)->Ok_0 == b@,
{
    base64::engine::general_purpose::STANDARD.encode(b)
}

/// `encode` of `base64::engine::general_purpose::URL_SAFE_NO_PAD`. It is a
/// function of the bytes alone.
#[verifier::external_body]
pub(crate) fn base64_url_encode(b: &Vec<u8>) -> (r: String)
    ensures
        r@ == base64_url_text(b@),
{
    base64::engine::general_purpose::URL_SAFE_NO_PAD.encode(b)
}

// ---------------------------------------------------------------------------
// JSON text, MIME types, images
// ---------------------------------------------------------------------------

/// A text as a JSON string, quotes and escapes included.
pub uninterp spec fn json_quoted(s: Seq<char>) -> Seq<char>;

/// `serde_json::Value::to_string` of a string. It is a function of the text
/// alone.
#[verifier::external_body]
pub(crate) fn json_quote(s: &str) -> (r: String)
    ensures
        r@ == json_quoted(s@),
{
    serde_json::Value::from(s).to_string()
}

/// The first MIME type known for a file extension, and its top-level type.
pub uninterp spec fn mime_of(ext: Seq<char>) -> (Seq<char>, Seq<char>);

/// `mime_guess::from_ext` and `MimeGuess::first_or_octet_stream`, with the type
/// by its `Display` form and the top-level type by `Mime::type_`. They are
/// functions of the extension alone.
#[verifier::external_body]
pub(crate) fn mime_for_ext(ext: &str) -> (r: (String, String))
    ensures
        (r.0@, r.1@) == mime_of(ext@),
{
    let mime = mime_guess::from_ext(ext).first_or_octet_stream();
    (mime.to_string(), mime.type_().to_string())
}

/// The PNG file of an image given by its pixels, or the words of the encoder's
/// complaint.
pub uninterp spec fn png_of(
    rgba: Seq<u8>,
    width: u32,
    height: u32,
) -> Result<Seq<u8>, Seq<char>>;

/// `image::RgbaImage::from_raw` and `DynamicImage::write_to` as PNG into memory,
/// with the error by its `Display` form. `from_raw` gives `None` where the pixels
/// are fewer than the dimensions ask for, or where four times the width, or that
/// times the height, is more than a `usize` holds. The encoder panics where the
/// pixels are more. The precondition keeps all of this out, whatever the width of
/// `usize`. The result is a function of the pixels and the dimensions alone.
#[verifier::external_body]
pub(crate) fn png_encode(rgba: Vec<u8>, width: u32, height: u32) -> (r: Result<Vec<u8>, String>)
    requires
        width * height * 4 == rgba@.len(),
        width * 4 <= usize::MAX,
    ensures
        bytes_result(r) == png_of(rgba@, width, height),
{
    let img = image::RgbaImage::from_raw(width, height, rgba).expect("enough pixels");
    let mut out: Vec<u8> = Vec::new();
    image::DynamicImage::ImageRgba8(img)
        .write_to(&mut std::io::Cursor::new(&mut out), image::ImageFormat::Png)
        .map_err(|e| e.to_string())?;
    Ok(out)
}

// ---------------------------------------------------------------------------
// Regular expressions
// ---------------------------------------------------------------------------

/// What the first group of `pattern` holds at its first match in `text`: the
/// words of the complaint when the pattern is malformed, `None` when there is
/// no match or the group took no part in it.
pub uninterp spec fn first_group_of(
    pattern: Seq<char>,
    text: Seq<char>,
) -> Result<Option<Seq<char>>, Seq<char>>;

pub open spec fn group_result(r: Result<Option<String>, String>) -> Result<
    Option<Seq<char>>,
    Seq<char>,
> {
    match r {
        Ok(g) => Ok(opt_text(g)),
        Err(e) => Err(e@),
    }
}

/// `regex::Regex::new` and `Regex::captures`, with the group by its text and
/// the error by its `Display` form. Both are functions of the pattern and the
/// text alone.
#[verifier::external_body]
pub(crate) fn first_group(pattern: &str, text: &str) -> (r: Result<Option<String>, String>)
    ensures
        group_result(r) == first_group_of(pattern@, text@),
{
    let re = regex::Regex::new(pattern).map_err(|e| e.to_string())?;
    Ok(re.captures(text).and_then(|c| c.get(1)).map(|m| m.as_str().to_string()))
}

// ---------------------------------------------------------------------------
// Randomness
// ---------------------------------------------------------------------------

/// `fill_bytes` of `rand::rng()`: as many bytes as asked for, of which nothing
/// more is known. The generator is seeded by the system, which is taken to be
/// able to do so.
#[verifier::external_body]
pub(crate) fn random_bytes(n: usize) -> (r: Vec<u8>)
    ensures
        r@.len() == n,
{
    let mut buf = vec![0u8; n];
    rand::rng().fill_bytes(&mut buf);
    buf
}

/// `rand::random`: any number. As above, the system is taken to be able to seed
/// the generator.
#[verifier::external_body]
pub(crate) fn random_u32() -> (r: u32) {
    rand::random()
}

} // verus!
