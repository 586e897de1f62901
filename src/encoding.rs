use vstd::prelude::*;
use vstd::utf8::encode_utf8;

verus! {

/// The HMAC-SHA256 tag of `msg` under `key`.
pub uninterp spec fn hmac_sha256_of(key: Seq<u8>, msg: Seq<u8>) -> Seq<u8>;

/// The standard padded base64 text of `bytes`.
pub uninterp spec fn base64_of(bytes: Seq<u8>) -> Seq<char>;

/// The JSON string literal (quotes included) that stands for `s`.
pub uninterp spec fn json_quoted(s: Seq<char>) -> Seq<char>;

/// The UTF-8 text that a gzip stream inflates to, if it is a well-formed
/// gzip stream whose content is valid UTF-8.
pub uninterp spec fn gunzip_text_of(bytes: Seq<u8>) -> Option<Seq<char>>;

/// An ASCII decimal digit.
pub open spec fn is_digit(c: char) -> bool {
    '0' <= c <= '9'
}

/// A UTC time written as `%Y-%m-%dT%H:%M:%S` with no zone: a year of digits
/// (with a leading `+` past 9999), then `-MM-DDTHH:MM:SS`.
pub open spec fn utc_text_form(t: Seq<char>) -> bool {
    let y = t.len() - 15;
    &&& t.len() >= 19
    &&& forall|i: int| 0 <= i < y ==> is_digit(#[trigger] t[i]) || (i == 0 && t[i] == '+')
    &&& t[y] == '-' && t[y + 3] == '-' && t[y + 6] == 'T' && t[y + 9] == ':' && t[y + 12] == ':'
    &&& is_digit(t[y + 1]) && is_digit(t[y + 2]) && is_digit(t[y + 4]) && is_digit(t[y + 5])
    &&& is_digit(t[y + 7]) && is_digit(t[y + 8]) && is_digit(t[y + 10]) && is_digit(t[y + 11])
    &&& is_digit(t[y + 13]) && is_digit(t[y + 14])
}

/// A character that JSON carries in a string literal as it stands.
pub open spec fn json_plain_char(c: char) -> bool {
    c != '"' && c != '\\' && (c as u32) >= 0x20
}

/// An ASCII letter or digit.
pub open spec fn is_ascii_alnum(b: u8) -> bool {
    (0x30 <= b <= 0x39) || (0x41 <= b <= 0x5a) || (0x61 <= b <= 0x7a)
}

/// The digit for `n` (below sixteen), in upper case.
pub open spec fn hex_digit_upper(n: u8) -> char {
    if n < 10 {
        ((n + 0x30) as u8) as char
    } else {
        ((n - 10 + 0x41) as u8) as char
    }
}

/// The digit for `n` (below sixteen), in lower case.
pub open spec fn hex_digit_lower(n: u8) -> char {
    if n < 10 {
        ((n + 0x30) as u8) as char
    } else {
        ((n - 10 + 0x61) as u8) as char
    }
}

/// One byte of a value, percent-encoded unless it is an ASCII letter or digit.
pub open spec fn percent_byte(b: u8) -> Seq<char> {
    if is_ascii_alnum(b) {
        seq![b as char]
    } else {
        seq!['%', hex_digit_upper(b / 16), hex_digit_upper(b % 16)]
    }
}

/// Every byte of `bytes` that is not an ASCII letter or digit written as
/// `%XX` with upper-case hex digits.
pub open spec fn percent_encoded(bytes: Seq<u8>) -> Seq<char>
    decreases bytes.len(),
{
    if bytes.len() == 0 {
        Seq::empty()
    } else {
        percent_encoded(bytes.drop_last()) + percent_byte(bytes.last())
    }
}

/// Two lower-case hex digits per byte, high nibble first.
pub open spec fn hex_lower(bytes: Seq<u8>) -> Seq<char>
    decreases bytes.len(),
{
    if bytes.len() == 0 {
        Seq::empty()
    } else {
        hex_lower(bytes.drop_last()) + seq![
            hex_digit_lower(bytes.last() / 16),
            hex_digit_lower(bytes.last() % 16),
        ]
    }
}

/// The decimal digits of a natural number, most significant first.
pub open spec fn decimal_digits(n: nat) -> Seq<char>
    decreases n,
{
    if n < 10 {
        seq![((n + 0x30) as u8) as char]
    } else {
        decimal_digits(n / 10) + seq![(((n % 10) + 0x30) as u8) as char]
    }
}

/// The decimal text of an integer, with a leading `-` when it is negative.
pub open spec fn decimal_of(n: int) -> Seq<char> {
    if n < 0 {
        seq!['-'] + decimal_digits((-n) as nat)
    } else {
        decimal_digits(n as nat)
    }
}

/// Relies on `percent_encoding::utf8_percent_encode` with the
/// `NON_ALPHANUMERIC` set: each UTF-8 byte that is not an ASCII letter or
/// digit becomes `%XX`.
#[verifier::external_body]
pub fn percent_encode(source: &str) -> (r: String)
    ensures
        r@ == percent_encoded(encode_utf8(source@)),
{
    percent_encoding::utf8_percent_encode(source, percent_encoding::NON_ALPHANUMERIC).to_string()
}

/// Relies on `ring::hmac::sign` with `HMAC_SHA256`, keyed by `key`: a tag
/// of the digest's 32 bytes.
#[verifier::external_body]
pub(crate) fn hmac_sha256(key: &[u8], msg: &[u8]) -> (r: Vec<u8>)
    ensures
        r@ == hmac_sha256_of(key@, msg@),
        r@.len() == 32,
{
    let signing_key = ring::hmac::Key::new(ring::hmac::HMAC_SHA256, key);
    ring::hmac::sign(&signing_key, msg).as_ref().to_vec()
}

/// Relies on `data_encoding::BASE64.encode`: padded, four characters for
/// each started group of three bytes.
#[verifier::external_body]
pub(crate) fn base64_encode(bytes: &[u8]) -> (r: String)
    ensures
        r@ == base64_of(bytes@),
        r@.len() == 4 * ((bytes@.len() + 2) / 3),
{
    data_encoding::BASE64.encode(bytes)
}

/// Relies on `hex::encode`: two lower-case digits per byte.
#[verifier::external_body]
pub(crate) fn hex_encode(bytes: &[u8]) -> (r: String)
    ensures
        r@ == hex_lower(bytes@),
{
    hex::encode(bytes)
}

/// Relies on `serde_json::to_string` on a string slice, which cannot fail:
/// the text is quoted, and characters that need no escape stand as they are.
#[verifier::external_body]
pub(crate) fn json_quote(s: &str) -> (r: String)
    ensures
        r@ == json_quoted(s@),
        (forall|i: int| 0 <= i < s@.len() ==> json_plain_char(#[trigger] s@[i])) ==> r@ == seq!['"']
            + s@ + seq!['"'],
{
    serde_json::to_string(s).unwrap_or_default()
}

/// Relies on `ToString` for `i64`: its decimal text.
#[verifier::external_body]
pub(crate) fn i64_text(n: i64) -> (r: String)
    ensures
        r@ == decimal_of(n as int),
{
    n.to_string()
}

/// Relies on `flate2::read::GzDecoder` and `std::io::Read::read_to_string`:
/// the inflated text, or `None` when the stream or its UTF-8 is malformed.
#[verifier::external_body]
pub(crate) fn gunzip_text(bytes: &[u8]) -> (r: Option<String>)
    ensures
        r matches Some(s) ==> gunzip_text_of(bytes@) == Some(s@),
        r is None ==> gunzip_text_of(bytes@) is None,
{
    let mut text = String::new();
    match std::io::Read::read_to_string(&mut flate2::read::GzDecoder::new(bytes), &mut text) {
        Ok(_) => Some(text),
        Err(_) => None,
    }
}

/// Relies on `chrono::Utc::now` formatted as `%Y-%m-%dT%H:%M:%S`: the
/// current UTC time, without a zone suffix.
#[verifier::external_body]
pub(crate) fn utc_timestamp_text() -> (r: String)
    ensures
        utc_text_form(r@),
{
    chrono::Utc::now().format("%Y-%m-%dT%H:%M:%S").to_string()
}

/// Relies on `chrono::Utc::now` and `DateTime::timestamp`: seconds since the
/// epoch; `now` does not return a time before it.
#[verifier::external_body]
pub(crate) fn unix_seconds() -> (r: i64)
    ensures
        r >= 0,
{
    chrono::Utc::now().timestamp()
}

/// Relies on `chrono::Utc::now` and `DateTime::timestamp_millis`:
/// milliseconds since the epoch; `now` does not return a time before it.
#[verifier::external_body]
pub(crate) fn unix_millis() -> (r: i64)
    ensures
        r >= 0,
{
    chrono::Utc::now().timestamp_millis()
}

} // verus!
