use mediafire_rs::text::{decimal_string, split_chars, trim};
use mediafire_rs::types::file_type::FileType;
use mediafire_rs::urls::clean_urls;
use mediafire_rs::utils::{check_hash, match_mediafire_valid_url, parse_download_link, split_keys};

fn strings(v: &[&str]) -> Vec<String> {
    v.iter().map(|s| s.to_string()).collect()
}

#[test]
fn file_type_from_key_lengths() {
    assert_eq!(FileType::from_key("tb1d35twcp7oj3p"), FileType::File);
    assert_eq!(FileType::from_key("xqub019s2e2l1"), FileType::Folder);
    assert_eq!(FileType::from_key(""), FileType::Invalid);
    assert_eq!(FileType::from_key("abc"), FileType::Invalid);
    // the length is counted in bytes: 13 chars of which one takes two bytes
    assert_eq!(FileType::from_key("xqub019s2e2l\u{e9}"), FileType::Invalid);
    // seven two-byte chars and one single-byte char make 15 bytes
    assert_eq!(FileType::from_key("\u{e9}\u{e9}\u{e9}\u{e9}\u{e9}\u{e9}\u{e9}a"), FileType::File);
}

#[test]
fn valid_file_url_gives_its_key() {
    let keys = match_mediafire_valid_url("https://www.mediafire.com/file/tb1d35twcp7oj3p/name.zip/file");
    assert_eq!(keys, Some(strings(&["tb1d35twcp7oj3p"])));
}

#[test]
fn folder_url_with_several_keys() {
    let keys = match_mediafire_valid_url("https://www.mediafire.com/folder/abc,def,ghi");
    assert_eq!(keys, Some(strings(&["abc", "def", "ghi"])));
}

#[test]
fn premium_and_download_urls() {
    assert_eq!(
        match_mediafire_valid_url("mediafire.com/file_premium/xyz123"),
        Some(strings(&["xyz123"]))
    );
    assert_eq!(
        match_mediafire_valid_url("http://mediafire.com/download/k1"),
        Some(strings(&["k1"]))
    );
}

#[test]
fn other_urls_are_rejected() {
    assert_eq!(match_mediafire_valid_url("https://example.com/file/abc"), None);
    assert_eq!(match_mediafire_valid_url("https://www.mediafire.com/"), None);
    assert_eq!(match_mediafire_valid_url("https://www.mediafire.com/view/abc"), None);
    assert_eq!(match_mediafire_valid_url(""), None);
}

#[test]
fn split_keys_keeps_empty_pieces() {
    assert_eq!(split_keys("a,,b,"), strings(&["a", "", "b", ""]));
    assert_eq!(split_keys(""), strings(&[""]));
    assert_eq!(split_keys("one"), strings(&["one"]));
}

#[test]
fn split_chars_any_separator() {
    assert_eq!(split_chars("x;y;z", ';'), strings(&["x", "y", "z"]));
    assert_eq!(split_chars("\u{e9}:\u{e8}", ':'), strings(&["\u{e9}", "\u{e8}"]));
}

#[test]
fn download_link_from_page() {
    let html = r#"<html><body><a class="input" id="downloadButton" href="https://download123.mediafire.com/x/file.zip">Download</a><a id="downloadButton" href="second"></a></body></html>"#;
    assert_eq!(
        parse_download_link(html),
        Some("https://download123.mediafire.com/x/file.zip".to_string())
    );
}

#[test]
fn download_link_missing() {
    assert_eq!(parse_download_link("<html><body><a href=\"x\">no</a></body></html>"), None);
    assert_eq!(parse_download_link("<a id=\"downloadButton\">no link</a>"), None);
    assert_eq!(parse_download_link(""), None);
}

#[test]
fn md5_hash_matches() {
    assert!(check_hash(b"hello", "5d41402abc4b2a76b9719d911017c592"));
    assert!(check_hash(b"hello", "  5D41402ABC4B2A76B9719D911017C592\n"));
    assert!(!check_hash(b"hello!", "5d41402abc4b2a76b9719d911017c592"));
}

#[test]
fn sha256_hash_matches() {
    let h = "2cf24dba5fb0a30e26e83b2ac5b9e29e1b161e5c1fa7425e73043362938b9824";
    assert!(check_hash(b"hello", h));
    assert!(check_hash(b"hello", &format!("\t{}  ", h.to_uppercase())));
    assert!(!check_hash(b"world", h));
}

#[test]
fn empty_contents_hashes() {
    assert!(check_hash(b"", "d41d8cd98f00b204e9800998ecf8427e"));
    assert!(check_hash(b"", "e3b0c44298fc1c149afbf4c8996fb92427ae41e4649b934ca495991b7852b855"));
}

#[test]
fn hash_of_other_length_never_matches() {
    assert!(!check_hash(b"hello", ""));
    assert!(!check_hash(b"hello", "5d41402abc4b2a76b9719d911017c59"));
    assert!(!check_hash(b"hello", "5d41402abc4b2a76b9719d911017c5920"));
}

#[test]
fn trim_whitespace() {
    assert_eq!(trim("  a b \t\n"), "a b");
    assert_eq!(trim("\u{3000}x\u{a0}"), "x");
    assert_eq!(trim("   "), "");
    assert_eq!(trim(""), "");
}

#[test]
fn decimal_numbers() {
    assert_eq!(decimal_string(0), "0");
    assert_eq!(decimal_string(7), "7");
    assert_eq!(decimal_string(1234567890), "1234567890");
    assert_eq!(decimal_string(u64::MAX), u64::MAX.to_string());
}

#[test]
fn url_file_lines_are_cleaned() {
    let lines = strings(&[
        "  https://www.mediafire.com/file/a  ",
        "",
        "# a comment",
        "   ",
        "https://www.mediafire.com/folder/b",
        "https://www.mediafire.com/file/a",
        "\thttps://www.mediafire.com/folder/b",
        " #also a comment",
        "https://www.mediafire.com/file/c",
    ]);
    assert_eq!(
        clean_urls(&lines),
        strings(&[
            "https://www.mediafire.com/file/a",
            "https://www.mediafire.com/folder/b",
            "https://www.mediafire.com/file/c",
        ])
    );
}

#[test]
fn no_url_lines() {
    assert_eq!(clean_urls(&Vec::new()), Vec::<String>::new());
    assert_eq!(clean_urls(&strings(&["#x", " ", ""])), Vec::<String>::new());
}

#[test]
fn split_keys_join_back() {
    for text in ["a,,b,", "", "x", ",", "k1,k2"] {
        let keys = split_keys(text);
        assert_eq!(keys.join(","), text);
        assert!(keys.iter().all(|k| !k.contains(',')));
    }
}

#[test]
fn trim_twice_is_trim_once() {
    for text in ["  a  ", "\u{2003}b\u{2028}", "c", "", " \t "] {
        let once = trim(text);
        assert_eq!(trim(&once), once);
    }
}
