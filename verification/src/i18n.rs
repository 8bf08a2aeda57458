//! Translation keys. Rust emits keys and encoded arguments; the frontend resolves them.
use base64::Engine as _;
use vstd::prelude::*;

verus! {

/// The message that names a translation key without arguments.
pub open spec fn key_text(key: Seq<char>) -> Seq<char> {
    "@i18n("@ + key + ",)"@
}

/// `@i18n(key,)`: a translation key without arguments.
pub fn text(key: &str) -> (r: String)
    ensures
        r@ == key_text(key@),
{
    let mut r = String::new();
    r.append("@i18n(");
    r.append(key);
    r.append(",)");
    r
}

/// The JSON array of strings that `serde_json::to_vec` writes for `args`.
pub uninterp spec fn json_strings(args: Seq<Seq<char>>) -> Seq<u8>;

/// The character of a 6-bit value in the URL-safe Base64 alphabet (RFC 4648, §5).
pub open spec fn base64_url_char(n: int) -> char {
    if n < 26 {
        ('A' as int + n) as char
    } else if n < 52 {
        ('a' as int + n - 26) as char
    } else if n < 62 {
        ('0' as int + n - 52) as char
    } else if n == 62 {
        '-'
    } else {
        '_'
    }
}

/// The URL-safe Base64 text of `bytes` without padding: each group of three bytes
/// gives four characters, a last group of two gives three, a last byte gives two.
pub open spec fn base64_url(bytes: Seq<u8>) -> Seq<char>
    decreases bytes.len(),
{
    if bytes.len() == 0 {
        Seq::empty()
    } else {
        let a = bytes[0] as int;
        let b = if bytes.len() > 1 { bytes[1] as int } else { 0 };
        let c = if bytes.len() > 2 { bytes[2] as int } else { 0 };
        let group = seq![
            base64_url_char(a / 4),
            base64_url_char((a % 4) * 16 + b / 16),
            base64_url_char((b % 16) * 4 + c / 64),
            base64_url_char(c % 64),
        ];
        if bytes.len() == 1 {
            group.take(2)
        } else if bytes.len() == 2 {
            group.take(3)
        } else {
            group + base64_url(bytes.skip(3))
        }
    }
}

/// `serde_json::to_vec` on a list of strings, which cannot fail for strings; the
/// bytes are named, not described: they are a function of the strings alone.
#[verifier::external_body]
fn encode_json(args: &[String]) -> (r: Vec<u8>)
    ensures
        r@ == json_strings(args@.map_values(|s: String| s@)),
{
    serde_json::to_vec(args).unwrap_or_default()
}

/// `base64::engine::general_purpose::URL_SAFE_NO_PAD.encode`: the URL-safe alphabet,
/// no padding.
#[verifier::external_body]
fn encode_base64_url(bytes: &[u8]) -> (r: String)
    ensures
        r@ == base64_url(bytes@),
{
    base64::engine::general_purpose::URL_SAFE_NO_PAD.encode(bytes)
}

/// The message that names a translation key with its arguments.
pub open spec fn key_args_text(key: Seq<char>, args: Seq<Seq<char>>) -> Seq<char> {
    "@i18n("@ + key + ","@ + base64_url(json_strings(args)) + ")"@
}

/// `@i18n(key,ARGS)`: a translation key with its arguments as Base64 of a JSON array.
pub fn f(key: &str, args: &[String]) -> (r: String)
    ensures
        r@ == key_args_text(key@, args@.map_values(|s: String| s@)),
{
    let json = encode_json(args);
    let encoded = encode_base64_url(json.as_slice());
    let mut r = String::new();
    r.append("@i18n(");
    r.append(key);
    r.append(",");
    r.append(encoded.as_str());
    r.append(")");
    r
}

/// The language number that `set_language` stores: Korean 1, Japanese 2, English 0.
pub open spec fn language_number(language: Seq<char>) -> u8 {
    if language == "ko"@ {
        1
    } else if language == "ja"@ {
        2
    } else {
        0
    }
}

/// The stored number of a language setting; anything unknown falls back to English.
pub fn language_code(language: &str) -> (r: u8)
    ensures
        r == language_number(language@),
{
    let v = crate::strings::chars_of(language);
    if crate::strings::same_chars(&v, &crate::strings::chars_of("ko")) {
        1
    } else if crate::strings::same_chars(&v, &crate::strings::chars_of("ja")) {
        2
    } else {
        0
    }
}

/// Chooses the language of translated text: the stored number becomes that of the
/// language, English for anything unknown.
pub fn set_language(stored: &mut u8, language: &str)
    ensures
        *final(stored) == language_number(language@),
{
    *stored = language_code(language);
}

} // verus!
