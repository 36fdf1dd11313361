use vstd::prelude::*;

use crate::text::{lowercase_of, split_chars, split_on, to_lowercase, trim, trim_chars, views};

verus! {

/// The view of an optional string.
pub open spec fn opt_view(o: Option<String>) -> Option<Seq<char>> {
    match o {
        Some(s) => Some(s@),
        None => None,
    }
}

/// The view of a doubly optional string.
pub open spec fn opt_opt_view(o: Option<Option<String>>) -> Option<Option<Seq<char>>> {
    match o {
        Some(inner) => Some(opt_view(inner)),
        None => None,
    }
}

// ---------------------------------------------------------------------------
// MediaFire links
// ---------------------------------------------------------------------------

/// The pattern a MediaFire link matches; its second group holds the
/// comma-separated keys.
pub const MEDIAFIRE_URL_PATTERN: &'static str = "mediafire\\.com/(file|file_premium|folder|download)/([\\w,]+)";

/// What the `regex` crate answers for `pattern` on `haystack`: `None` when the
/// pattern does not compile, `Some(None)` when there is no match or the group
/// did not take part in the leftmost-first match, and otherwise the text of
/// that group.
pub uninterp spec fn regex_group_text(
    pattern: Seq<char>,
    haystack: Seq<char>,
    group: nat,
) -> Option<Option<Seq<char>>>;

/// `regex::Regex::new(pattern)`, then `captures(haystack)` and `get(group)`.
/// The contract names the result after the pattern, the haystack and the
/// group index; the regex semantics themselves are not written out.
#[verifier::external_body]
fn regex_capture_group(pattern: &str, haystack: &str, group: usize) -> (res: Option<
    Option<String>,
>)
    ensures
        opt_opt_view(res) == regex_group_text(pattern@, haystack@, group as nat),
{
    let re = regex::Regex::new(pattern).ok()?;
    Some(re.captures(haystack).and_then(|c| c.get(group)).map(|m| m.as_str().to_string()))
}

/// The keys that a MediaFire link names: the comma-separated pieces of the
/// text that the link pattern's key group captured, or `None` when `url`
/// is no MediaFire link.
pub open spec fn mediafire_keys(url: Seq<char>) -> Option<Seq<Seq<char>>> {
    match regex_group_text(MEDIAFIRE_URL_PATTERN@, url, 2) {
        Some(Some(keys)) => Some(split_on(keys, ',')),
        _ => None,
    }
}

/// The keys in a captured key list: its pieces between commas.
pub fn split_keys(captured: &str) -> (res: Vec<String>)
    ensures
        views(res@) == split_on(captured@, ','),
{
    split_chars(captured, ',')
}

/// Recognises a MediaFire file or folder link and returns the keys it names.
pub fn match_mediafire_valid_url(url: &str) -> (res: Option<Vec<String>>)
    ensures
        match res {
            Some(keys) => mediafire_keys(url@) == Some(views(keys@)),
            None => mediafire_keys(url@) is None,
        },
{
    match regex_capture_group(MEDIAFIRE_URL_PATTERN, url, 2) {
        Some(Some(captured)) => Some(split_keys(captured.as_str())),
        _ => None,
    }
}

// ---------------------------------------------------------------------------
// Download page
// ---------------------------------------------------------------------------

/// What `scraper` finds in `html`: the value of attribute `attr` on the first
/// element that `Html::select` yields for the CSS `selector` (it walks the nodes
/// in the order the HTML parser created them); `None` when the selector does
/// not parse, nothing matches, or that element lacks the attribute.
pub uninterp spec fn html_first_attr(
    html: Seq<char>,
    selector: Seq<char>,
    attr: Seq<char>,
) -> Option<Seq<char>>;

/// `scraper::Html::parse_document`, `Selector::parse`, `Html::select`, then
/// `attr` on the first match. The result is named after the three strings
/// and not written out.
#[verifier::external_body]
fn first_match_attr(html: &str, selector: &str, attr: &str) -> (res: Option<String>)
    ensures
        opt_view(res) == html_first_attr(html@, selector@, attr@),
{
    let document = scraper::Html::parse_document(html);
    let selector = scraper::Selector::parse(selector).ok()?;
    let element = document.select(&selector).next()?;
    element.value().attr(attr).map(|s| s.to_string())
}

/// The link of the download button on a MediaFire file page.
pub fn parse_download_link(html: &str) -> (res: Option<String>)
    ensures
        opt_view(res) == html_first_attr(html@, "#downloadButton"@, "href"@),
{
    first_match_attr(html, "#downloadButton", "href")
}

// ---------------------------------------------------------------------------
// File hashes
// ---------------------------------------------------------------------------

/// The lowercase hexadecimal digit for `n` (`0 <= n < 16`).
pub open spec fn hex_digit(n: nat) -> char {
    if n < 10 {
        (n + 48) as char
    } else {
        (n + 87) as char
    }
}

/// Lowercase hexadecimal text of `bytes`, two digits per byte, high nibble first.
pub open spec fn hex_lower(bytes: Seq<u8>) -> Seq<char>
    decreases bytes.len(),
{
    if bytes.len() == 0 {
        Seq::<char>::empty()
    } else {
        seq![hex_digit(bytes[0] as nat / 16), hex_digit(bytes[0] as nat % 16)] + hex_lower(
            bytes.drop_first(),
        )
    }
}

/// `hex::encode`: by the crate's documentation and source, lowercase
/// hexadecimal text of the bytes, two digits per byte.
#[verifier::external_body]
fn hex_encode(bytes: &[u8]) -> (res: String)
    ensures
        res@ == hex_lower(bytes@),
{
    hex::encode(bytes)
}

/// The MD5 digest of `data`, as the `md5` crate computes it.
pub uninterp spec fn md5_of(data: Seq<u8>) -> [u8; 16];

/// `md5::Context`: `new`, `consume`, `finalize`. The digest is named, not
/// written out.
#[verifier::external_body]
fn md5_digest(data: &[u8]) -> (res: [u8; 16])
    ensures
        res == md5_of(data@),
{
    let mut context = md5::Context::new();
    context.consume(data);
    context.finalize().0
}

/// The SHA-256 digest of `data`, as `ring` computes it.
pub uninterp spec fn sha256_of(data: Seq<u8>) -> [u8; 32];

/// `ring::digest::Context` for SHA-256: `new`, `update`, `finish`. The
/// digest is named, not written out; ring's SHA-256 output is 32 bytes.
#[verifier::external_body]
fn sha256_digest(data: &[u8]) -> (res: [u8; 32])
    ensures
        res == sha256_of(data@),
{
    let mut context = ring::digest::Context::new(&ring::digest::SHA256);
    context.update(data);
    let mut out = [0u8; 32];
    out.copy_from_slice(context.finish().as_ref());
    out
}

/// An expected hash as it is compared: trimmed, then lowercased.
pub open spec fn normalized_hash(expected: Seq<char>) -> Seq<char> {
    lowercase_of(trim_chars(expected))
}

/// Whether file contents `data` match `expected`: a normalized hash of 32
/// bytes is compared with the MD5 hex digest, one of 64 bytes with the
/// SHA-256 hex digest, and any other length matches nothing.
pub open spec fn hash_matches(data: Seq<u8>, expected: Seq<char>) -> bool {
    let e = normalized_hash(expected);
    let n = vstd::utf8::encode_utf8(e).len() as usize;
    if n == 32 {
        hex_lower(md5_of(data)@) == e
    } else if n == 64 {
        hex_lower(sha256_of(data)@) == e
    } else {
        false
    }
}

/// The digest that an expected hash asks for.
#[derive(Debug, Clone, Copy, PartialEq, Eq, Structural)]
pub enum HashKind {
    Md5,
    Sha256,
}

/// The digest that `expected` asks for, by the byte length of its normalized
/// form: 32 for MD5, 64 for SHA-256, anything else for none.
pub open spec fn hash_kind_of(expected: Seq<char>) -> Option<HashKind> {
    let n = vstd::utf8::encode_utf8(normalized_hash(expected)).len() as usize;
    if n == 32 {
        Some(HashKind::Md5)
    } else if n == 64 {
        Some(HashKind::Sha256)
    } else {
        None
    }
}

/// Which digest a check against `expected_hash` computes, if any.
pub fn hash_kind(expected_hash: &str) -> (res: Option<HashKind>)
    ensures
        res == hash_kind_of(expected_hash@),
{
    let trimmed = trim(expected_hash);
    let expected = to_lowercase(trimmed.as_str());
    match expected.as_str().len() {
        32 => Some(HashKind::Md5),
        64 => Some(HashKind::Sha256),
        _ => None,
    }
}

/// The digest chosen for an expected hash is the one the check compares
/// against: MD5 exactly when the normalized hash is 32 bytes long, SHA-256
/// exactly when it is 64 bytes long, and with no digest chosen, no contents
/// match at all.
pub proof fn hash_kind_picks_the_compared_digest(data: Seq<u8>, expected: Seq<char>)
    ensures
        hash_kind_of(expected) == Some(HashKind::Md5) <==> vstd::utf8::encode_utf8(
            normalized_hash(expected),
        ).len() as usize == 32,
        hash_kind_of(expected) == Some(HashKind::Sha256) <==> vstd::utf8::encode_utf8(
            normalized_hash(expected),
        ).len() as usize == 64,
        hash_kind_of(expected) is None ==> !hash_matches(data, expected),
        hash_kind_of(expected) == Some(HashKind::Md5) ==> (hash_matches(data, expected) <==> hex_lower(
            md5_of(data)@,
        ) == normalized_hash(expected)),
        hash_kind_of(expected) == Some(HashKind::Sha256) ==> (hash_matches(data, expected)
            <==> hex_lower(sha256_of(data)@) == normalized_hash(expected)),
{
}

/// Whether `digest`, written in lowercase hex, is the text `expected`.
pub fn digest_matches(digest: &[u8], expected: &str) -> (res: bool)
    ensures
        res == (hex_lower(digest@) == expected@),
{
    let actual = hex_encode(digest);
    let expected = String::from_str(expected);
    actual == expected
}

/// Checks downloaded contents against the hash that MediaFire reports.
pub fn check_hash(data: &[u8], expected_hash: &str) -> (res: bool)
    ensures
        res == hash_matches(data@, expected_hash@),
{
    let trimmed = trim(expected_hash);
    let expected = to_lowercase(trimmed.as_str());
    match expected.as_str().len() {
        32 => {
            let digest = md5_digest(data);
            digest_matches(&digest, expected.as_str())
        },
        64 => {
            let digest = sha256_digest(data);
            digest_matches(&digest, expected.as_str())
        },
        _ => false,
    }
}

/// Lowercase hex text is plain ASCII, two characters per byte.
proof fn lemma_hex_lower_ascii(bytes: Seq<u8>)
    ensures
        hex_lower(bytes).len() == 2 * bytes.len(),
        vstd::utf8::is_ascii_chars(hex_lower(bytes)),
    decreases bytes.len(),
{
    if bytes.len() > 0 {
        lemma_hex_lower_ascii(bytes.drop_first());
        let hi = bytes[0] as nat / 16;
        let lo = bytes[0] as nat % 16;
        let h = hex_lower(bytes);
        let rest = hex_lower(bytes.drop_first());
        assert(h == seq![hex_digit(hi), hex_digit(lo)] + rest);
        assert forall|i| 0 <= i < h.len() implies '\0' <= #[trigger] h[i] <= '\u{7f}' by {
            if i >= 2 {
                assert(h[i] == rest[i - 2]);
            }
        }
    }
}

/// A check accepts the contents exactly when the normalized expected hash
/// equals their MD5 digest or their SHA-256 digest in lowercase hex.
pub proof fn check_hash_accepts_either_digest(data: Seq<u8>, expected: Seq<char>)
    ensures
        hash_matches(data, expected) <==> (normalized_hash(expected) == hex_lower(md5_of(data)@)
            || normalized_hash(expected) == hex_lower(sha256_of(data)@)),
{
    let md5_hex = hex_lower(md5_of(data)@);
    let sha_hex = hex_lower(sha256_of(data)@);
    lemma_hex_lower_ascii(md5_of(data)@);
    lemma_hex_lower_ascii(sha256_of(data)@);
    vstd::utf8::is_ascii_chars_encode_utf8(md5_hex);
    vstd::utf8::is_ascii_chars_encode_utf8(sha_hex);
    assert(md5_of(data)@.len() == 16);
    assert(sha256_of(data)@.len() == 32);
}

} // verus!
