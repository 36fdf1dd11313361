use std::cmp::Ordering;
use std::path::PathBuf;

use mediafire_rs::api::{file_info_url, folder_content_url, folder_info_url};
use mediafire_rs::config::Config;
use mediafire_rs::download::{failure_notice, AfterAttempt, RetryState, RETRY_SECS};
use mediafire_rs::progress::{
    attempt_start_update, failed_attempt_update, given_up_update, progress_update, BarStyle,
    DownloadProgress,
};
use mediafire_rs::queue::JobQueue;
use mediafire_rs::report::{failure_line, Tally};
use mediafire_rs::size::{compare_sizes, SizeOrder};
use mediafire_rs::types::client::plan_proxies;
use mediafire_rs::types::download::DownloadJob;
use mediafire_rs::types::file::{File, FileInfo, Links};
use mediafire_rs::types::permissions::Permissions;

fn permissions() -> Permissions {
    Permissions {
        value: "1".to_string(),
        explicit: "1".to_string(),
        read: "1".to_string(),
        write: "0".to_string(),
    }
}

fn file(name: &str, size: &str) -> File {
    File {
        quickkey: format!("key-{}", name),
        hash: "h".to_string(),
        filename: name.to_string(),
        description: String::new(),
        size: size.to_string(),
        privacy: "public".to_string(),
        created: "2024-01-01".to_string(),
        password_protected: "no".to_string(),
        mimetype: "application/zip".to_string(),
        filetype: "archive".to_string(),
        view: "0".to_string(),
        edit: "0".to_string(),
        revision: "1".to_string(),
        flag: "0".to_string(),
        permissions: permissions(),
        downloads: "3".to_string(),
        views: "4".to_string(),
        links: Links { normal_download: format!("https://www.mediafire.com/file/{}", name) },
        created_utc: "2024-01-01T00:00:00Z".to_string(),
    }
}

fn job(name: &str, size: &str) -> DownloadJob {
    DownloadJob::new(file(name, size), PathBuf::from("out"))
}

fn drain(mut q: JobQueue) -> Vec<String> {
    let mut names = Vec::new();
    while let Some(j) = q.pop() {
        names.push(j.file.filename);
    }
    names
}

#[test]
fn sizes_compare_as_numbers() {
    assert_eq!(compare_sizes("9", "10"), SizeOrder::Smaller);
    assert_eq!(compare_sizes("100", "99"), SizeOrder::Larger);
    assert_eq!(compare_sizes("0010", "10"), SizeOrder::Same);
    assert_eq!(compare_sizes("123", "124"), SizeOrder::Smaller);
    assert_eq!(compare_sizes("", "0"), SizeOrder::Smaller);
    assert_eq!(compare_sizes("09", "9"), SizeOrder::Same);
    assert_eq!(
        compare_sizes("123456789012345678901234567890", "123456789012345678901234567891"),
        SizeOrder::Smaller
    );
}

#[test]
fn sizes_that_are_not_numbers() {
    // fields that are empty or start below '0' come before every number, as text does
    assert_eq!(compare_sizes("-1", "5"), SizeOrder::Smaller);
    assert_eq!(compare_sizes("99999999999999999999999", "-1"), SizeOrder::Larger);
    assert_eq!(compare_sizes(" 7", "0"), SizeOrder::Smaller);
    assert_eq!(compare_sizes("", "-1"), SizeOrder::Smaller);
    // other fields come after every number, and compare among themselves as text
    assert_eq!(compare_sizes("12a", "0"), SizeOrder::Larger);
    assert_eq!(compare_sizes("1", "12a"), SizeOrder::Smaller);
    assert_eq!(compare_sizes("x", "99"), SizeOrder::Larger);
    assert_eq!(compare_sizes("abc", "abd"), SizeOrder::Smaller);
    assert_eq!(compare_sizes("b", "abc"), SizeOrder::Larger);
    assert_eq!(compare_sizes("ab", "abc"), SizeOrder::Smaller);
    assert_eq!(compare_sizes("1.5", "1.5"), SizeOrder::Same);
    assert_eq!(compare_sizes("9x", "10x"), SizeOrder::Larger);
}

#[test]
fn queue_puts_negative_sizes_first() {
    let q = JobQueue::new(vec![job("a", "300"), job("m", "-1"), job("d", "5")], false);
    assert_eq!(drain(q), vec!["m", "d", "a"]);
}

#[test]
fn queue_puts_unreadable_sizes_last() {
    let q = JobQueue::new(vec![job("b", "n/a"), job("a", "300"), job("c", "?"), job("d", "5")], false);
    assert_eq!(drain(q), vec!["d", "a", "c", "b"]);
    let q = JobQueue::new(vec![job("b", "n/a"), job("a", "300"), job("c", "?"), job("d", "5")], true);
    assert_eq!(drain(q), vec!["b", "c", "a", "d"]);
}

#[test]
fn job_priority_smallest_first() {
    let small = job("small", "9");
    let big = job("big", "10");
    assert_eq!(small.compare_priority(&big, false), Ordering::Greater);
    assert_eq!(big.compare_priority(&small, false), Ordering::Less);
    assert_eq!(small.compare_priority(&big, true), Ordering::Less);
    assert_eq!(big.compare_priority(&small, true), Ordering::Greater);
    assert_eq!(small.compare_priority(&job("same", "09"), true), Ordering::Equal);
}

#[test]
fn queue_hands_out_smallest_first() {
    let q = JobQueue::new(vec![job("b", "2000"), job("a", "300"), job("c", "40000"), job("d", "5")], false);
    assert_eq!(q.len(), 4);
    assert_eq!(drain(q), vec!["d", "a", "b", "c"]);
}

#[test]
fn queue_hands_out_largest_first_when_reversed() {
    let mut q = JobQueue::new(Vec::new(), true);
    assert!(q.is_empty());
    q.push(job("b", "2000"));
    q.push(job("a", "300"));
    q.push(job("c", "40000"));
    q.push(job("d", "5"));
    assert_eq!(drain(q), vec!["c", "b", "a", "d"]);
}

#[test]
fn queue_ties_keep_insertion_order() {
    let q = JobQueue::new(vec![job("x", "7"), job("y", "007"), job("z", "1")], true);
    assert_eq!(drain(q), vec!["x", "y", "z"]);
}

#[test]
fn empty_queue_pops_nothing() {
    let mut q = JobQueue::new(Vec::new(), false);
    assert!(q.pop().is_none());
    assert_eq!(q.len(), 0);
}

#[test]
fn retries_until_success() {
    let mut r = RetryState::new(3);
    assert_eq!(r.record::<String>(Err("timeout".to_string())), AfterAttempt::Retry);
    assert_eq!(r.tries_left(), 2);
    assert_eq!(r.record::<String>(Ok(())), AfterAttempt::Succeeded);
    assert_eq!(r.tries_left(), 2);
}

#[test]
fn gives_up_with_last_error() {
    let mut r = RetryState::new(2);
    assert_eq!(r.record(Err("first")), AfterAttempt::Retry);
    assert_eq!(r.record(Err("second")), AfterAttempt::GiveUp("second"));
    assert_eq!(r.tries_left(), 0);
}

#[test]
fn single_try_gives_up_at_once() {
    let mut r = RetryState::new(1);
    assert_eq!(r.record(Err(5)), AfterAttempt::GiveUp(5));
    assert_eq!(RETRY_SECS, 2);
}

#[test]
fn failure_notices() {
    assert_eq!(failure_notice(3), "Retrying... 3 left");
    assert_eq!(failure_notice(1), "Retrying... 1 left");
    assert_eq!(failure_notice(0), "No more retries left");
}

#[test]
fn progress_downloading() {
    let u = progress_update(DownloadProgress::Downloading(10, 100), "a.zip");
    assert_eq!(u.style, BarStyle::Download);
    assert_eq!(u.prefix, "a.zip");
    assert_eq!(u.message, Some("\u{1f53d}".to_string()));
    assert_eq!(u.length, Some(100));
    assert_eq!(u.position, Some(10));
    assert!(!u.tick && !u.finish && !u.reset);
}

#[test]
fn progress_phases() {
    let u = progress_update(DownloadProgress::TryResuming, "a.zip");
    assert_eq!((u.style, u.prefix.as_str()), (BarStyle::Normal, "Try resuming..."));
    assert_eq!(u.message.as_deref(), Some("\u{1f4ab}"));
    let u = progress_update(DownloadProgress::GettingLink, "a.zip");
    assert_eq!((u.style, u.prefix.as_str()), (BarStyle::Normal, "Getting link..."));
    assert_eq!(u.message.as_deref(), Some("\u{1f300}"));
    let u = progress_update(DownloadProgress::CheckingHash, "a.zip");
    assert_eq!((u.style, u.prefix.as_str()), (BarStyle::Normal, "Checking hash..."));
    assert_eq!(u.message.as_deref(), Some("\u{1f4be}"));
    assert!(u.tick && !u.finish);
    let u = progress_update(DownloadProgress::Done, "a.zip");
    assert_eq!((u.style, u.prefix.as_str()), (BarStyle::Normal, "a.zip"));
    assert_eq!(u.message.as_deref(), Some("\u{2705}"));
    assert!(u.tick && u.finish);
}

#[test]
fn attempt_bars() {
    let u = attempt_start_update("f.bin");
    assert!(u.reset);
    assert_eq!((u.style, u.prefix.as_str(), u.message), (BarStyle::Normal, "f.bin", None));
    let u = failed_attempt_update(2);
    assert_eq!((u.style, u.prefix.as_str()), (BarStyle::Error, "Retrying... 2 left"));
    assert_eq!(u.message.as_deref(), Some("\u{1f503}"));
    let u = failed_attempt_update(0);
    assert_eq!(u.prefix, "No more retries left");
    let u = given_up_update("f.bin");
    assert_eq!((u.style, u.prefix.as_str()), (BarStyle::Error, "f.bin"));
    assert_eq!(u.message.as_deref(), Some("\u{274c}"));
    assert!(u.finish);
}

#[test]
fn failure_report_line() {
    assert_eq!(
        failure_line("a.zip", "hash mismatch", "https://x/a.zip"),
        "a.zip \u{b7} hash mismatch \u{b7} https://x/a.zip"
    );
}

#[test]
fn tally_counts() {
    let mut t: Tally<&str> = Tally::new();
    assert_eq!(t.failed_text(), "Failed 0");
    assert_eq!(t.successful_text(), "Successful 0");
    t.record(job("a", "1"), Ok(()));
    t.record(job("b", "1"), Err("boom"));
    t.record(job("c", "1"), Ok(()));
    assert_eq!(t.successful_count(), 2);
    assert_eq!(t.failed_count(), 1);
    assert_eq!(t.failed_text(), "Failed 1");
    assert_eq!(t.successful_text(), "Successful 2");
    let failures = t.into_failures();
    assert_eq!(failures.len(), 1);
    assert_eq!(failures[0].0.file.filename, "b");
    assert_eq!(failures[0].1, "boom");
}

#[test]
fn api_urls() {
    assert_eq!(
        file_info_url("v91fqemfiau67jr"),
        "https://www.mediafire.com/api/1.5/file/get_info.php?response_format=json&quick_key=v91fqemfiau67jr"
    );
    assert_eq!(
        folder_info_url("xqub019s2e2l1"),
        "https://www.mediafire.com/api/1.5/folder/get_info.php?response_format=json&folder_key=xqub019s2e2l1"
    );
    assert_eq!(
        folder_content_url("xqub019s2e2l1", "folders", 1),
        "https://www.mediafire.com/api/1.5/folder/get_content.php?response_format=json&folder_key=xqub019s2e2l1&content_type=folders&chunk=1"
    );
    assert_eq!(
        folder_content_url("k", "files", 12),
        "https://www.mediafire.com/api/1.5/folder/get_content.php?response_format=json&folder_key=k&content_type=files&chunk=12"
    );
}

#[test]
fn proxies_for_api_only() {
    let plan = plan_proxies(Some(vec!["http://p1:8080".to_string(), "socks5://p2:1080".to_string()]), false);
    assert_eq!(plan.api, vec!["http://p1:8080", "socks5://p2:1080"]);
    assert!(plan.download.is_empty());
}

#[test]
fn proxies_for_downloads_too() {
    let plan = plan_proxies(Some(vec!["http://p1:8080".to_string()]), true);
    assert_eq!(plan.api, vec!["http://p1:8080"]);
    assert_eq!(plan.download, vec!["http://p1:8080"]);
    let plan = plan_proxies(None, true);
    assert!(plan.api.is_empty() && plan.download.is_empty());
}

#[test]
fn config_keeps_its_settings() {
    let c = Config::new(
        vec!["u".to_string()],
        Some(PathBuf::from("urls.txt")),
        PathBuf::from("."),
        10,
        1,
        true,
        None,
        false,
    );
    assert_eq!(c.urls, vec!["u"]);
    assert_eq!(c.input_file, Some(PathBuf::from("urls.txt")));
    assert_eq!(c.output_path, PathBuf::from("."));
    assert_eq!((c.max, c.tries, c.reverse_order, c.proxy_downloads), (10, 1, true, false));
    assert_eq!(c.proxy_file, None);
}

#[test]
fn file_from_info_has_no_counts() {
    let info = FileInfo {
        quickkey: "v91fqemfiau67jr".to_string(),
        filename: "a.zip".to_string(),
        ready: "yes".to_string(),
        created: "c".to_string(),
        description: "d".to_string(),
        size: "1234".to_string(),
        privacy: "public".to_string(),
        password_protected: "no".to_string(),
        hash: "abc".to_string(),
        filetype: "archive".to_string(),
        mimetype: "application/zip".to_string(),
        owner_name: "o".to_string(),
        flag: "0".to_string(),
        permissions: permissions(),
        revision: "2".to_string(),
        view: "v".to_string(),
        edit: "e".to_string(),
        links: Links { normal_download: "https://x".to_string() },
        created_utc: "u".to_string(),
    };
    let f = File::from(info);
    assert_eq!(f.quickkey, "v91fqemfiau67jr");
    assert_eq!(f.filename, "a.zip");
    assert_eq!(f.size, "1234");
    assert_eq!(f.hash, "abc");
    assert_eq!(f.downloads, "");
    assert_eq!(f.views, "");
    assert_eq!(f.links.normal_download, "https://x");
    assert_eq!(f.permissions, permissions());
}
