use mediafire_rs::downloader::{
    download_step, file_of_info, folder_walk_of_info, link_targets, ContentKind, DownloadAction,
    DownloadEvent, DownloadFailure, FolderWalk, LinkTarget,
};
use mediafire_rs::types::file::FileInfo;
use mediafire_rs::types::folder::FolderInfo;
use mediafire_rs::types::get_info::Response;
use mediafire_rs::progress::DownloadProgress;
use mediafire_rs::types::file::{File, Links};
use mediafire_rs::types::folder::Folder;
use mediafire_rs::types::get_content::FolderContent;
use mediafire_rs::types::permissions::Permissions;
use mediafire_rs::utils::{digest_matches, hash_kind, HashKind};

fn perms() -> Permissions {
    Permissions {
        value: "1".into(),
        explicit: "1".into(),
        read: "1".into(),
        write: "0".into(),
    }
}

fn file(name: &str) -> File {
    File {
        quickkey: format!("q-{}", name),
        hash: String::new(),
        filename: name.into(),
        description: String::new(),
        size: "1".into(),
        privacy: "public".into(),
        created: String::new(),
        password_protected: "no".into(),
        mimetype: String::new(),
        filetype: String::new(),
        view: String::new(),
        edit: String::new(),
        revision: String::new(),
        flag: String::new(),
        permissions: perms(),
        downloads: String::new(),
        views: String::new(),
        links: Links { normal_download: String::new() },
        created_utc: String::new(),
    }
}

fn folder(key: &str, name: &str) -> Folder {
    Folder {
        folderkey: key.into(),
        name: name.into(),
        description: String::new(),
        tags: String::new(),
        privacy: String::new(),
        created: String::new(),
        revision: String::new(),
        flag: String::new(),
        permissions: perms(),
        file_count: String::new(),
        folder_count: String::new(),
        dropbox_enabled: String::new(),
        created_utc: String::new(),
    }
}

fn content(files: Option<Vec<File>>, folders: Option<Vec<Folder>>, more: &str) -> FolderContent {
    FolderContent {
        chunk_size: "100".into(),
        content_type: String::new(),
        chunk_number: "1".into(),
        folderkey: String::new(),
        folders,
        files,
        more_chunks: more.into(),
        revision: String::new(),
    }
}

fn next(walk: &FolderWalk) -> Option<(String, Vec<String>, ContentKind, u32)> {
    walk.next_request().map(|t| (t.key.clone(), t.dirs.clone(), t.kind, t.chunk))
}

#[test]
fn folder_walk_visits_chunks_then_subfolders() {
    let mut walk = FolderWalk::new("root".into(), vec!["Top".into()]);
    assert_eq!(next(&walk), Some(("root".into(), vec!["Top".into()], ContentKind::Files, 1)));

    let listed = walk.on_chunk(content(Some(vec![file("a"), file("b")]), None, "yes"));
    assert_eq!(listed.files.len(), 2);
    assert_eq!(listed.dirs, vec!["Top".to_string()]);
    assert_eq!(next(&walk), Some(("root".into(), vec!["Top".into()], ContentKind::Files, 2)));

    let listed = walk.on_chunk(content(Some(vec![file("c")]), None, "no"));
    assert_eq!(listed.files[0].filename, "c");
    assert_eq!(next(&walk), Some(("root".into(), vec!["Top".into()], ContentKind::Folders, 1)));

    let listed = walk.on_chunk(content(None, Some(vec![folder("sub", "Inner")]), "no"));
    assert!(listed.files.is_empty());
    assert_eq!(
        next(&walk),
        Some(("sub".into(), vec!["Top".into(), "Inner".into()], ContentKind::Files, 1))
    );

    walk.on_chunk(content(None, None, "no"));
    assert_eq!(
        next(&walk),
        Some(("sub".into(), vec!["Top".into(), "Inner".into()], ContentKind::Folders, 1))
    );
    walk.on_chunk(content(None, None, "no"));
    assert_eq!(next(&walk), None);
}

#[test]
fn content_kind_params() {
    assert_eq!(ContentKind::Files.as_param(), "files");
    assert_eq!(ContentKind::Folders.as_param(), "folders");
}

#[test]
fn download_of_a_new_file() {
    let (p, a) = download_step(DownloadEvent::Begin { target_exists: false });
    assert_eq!(p, Some(DownloadProgress::GettingLink));
    assert!(matches!(a, DownloadAction::FetchPage));
    let page = r#"<a id="downloadButton" href="https://dl.example/f.zip">go</a>"#.to_string();
    let (p, a) = download_step(DownloadEvent::PageFetched(page));
    assert_eq!(p, None);
    match a {
        DownloadAction::FetchFile(link) => assert_eq!(link, "https://dl.example/f.zip"),
        _ => panic!("expected a link"),
    }
    let (p, a) = download_step(DownloadEvent::Transferred);
    assert_eq!(p, Some(DownloadProgress::CheckingHash));
    assert!(matches!(a, DownloadAction::CheckHash));
    let (p, a) = download_step(DownloadEvent::HashChecked { hash_ok: true });
    assert_eq!(p, Some(DownloadProgress::Done));
    assert!(matches!(a, DownloadAction::Finish(Ok(()))));
}

#[test]
fn download_of_an_existing_file() {
    let (p, a) = download_step(DownloadEvent::Begin { target_exists: true });
    assert_eq!(p, Some(DownloadProgress::TryResuming));
    assert!(matches!(a, DownloadAction::CheckExisting));
    let (p, a) = download_step(DownloadEvent::ExistingChecked { hash_ok: true });
    assert_eq!(p, Some(DownloadProgress::Done));
    assert!(matches!(a, DownloadAction::Finish(Ok(()))));
    let (p, a) = download_step(DownloadEvent::ExistingChecked { hash_ok: false });
    assert_eq!(p, Some(DownloadProgress::GettingLink));
    assert!(matches!(a, DownloadAction::FetchPage));
}

#[test]
fn download_failures() {
    let (_, a) = download_step(DownloadEvent::PageFetched("<p>nothing</p>".to_string()));
    assert!(matches!(a, DownloadAction::Finish(Err(DownloadFailure::NoDownloadLink))));
    let (p, a) = download_step(DownloadEvent::HashChecked { hash_ok: false });
    assert_eq!(p, None);
    assert!(matches!(a, DownloadAction::Finish(Err(DownloadFailure::HashMismatch))));
}

#[test]
fn digest_compared_as_lowercase_hex() {
    assert!(digest_matches(&[0xab, 0x01, 0xff], "ab01ff"));
    assert!(!digest_matches(&[0xab, 0x01, 0xff], "AB01FF"));
    assert!(!digest_matches(&[0xab, 0x01, 0xff], "ab01f"));
    assert!(digest_matches(&[], ""));
}

#[test]
fn hash_kinds() {
    assert_eq!(hash_kind(" 5D41402ABC4B2A76B9719D911017C592 "), Some(HashKind::Md5));
    assert_eq!(hash_kind(&"a".repeat(64)), Some(HashKind::Sha256));
    assert_eq!(hash_kind("abc"), None);
    // 16 two-byte characters make 32 bytes
    assert_eq!(hash_kind(&"\u{e9}".repeat(16)), Some(HashKind::Md5));
}

fn targets(url: &str) -> Vec<(bool, String)> {
    link_targets(url)
        .into_iter()
        .map(|t| match t {
            LinkTarget::File(k) => (false, k),
            LinkTarget::Folder(k) => (true, k),
        })
        .collect()
}

#[test]
fn link_targets_by_key_length() {
    assert_eq!(
        targets("https://www.mediafire.com/folder/xqub019s2e2l1,tb1d35twcp7oj3p,short"),
        vec![(true, "xqub019s2e2l1".to_string()), (false, "tb1d35twcp7oj3p".to_string())]
    );
    assert_eq!(targets("https://www.mediafire.com/file/tb1d35twcp7oj3p/a.zip/file"), vec![(false, "tb1d35twcp7oj3p".to_string())]);
    assert!(targets("https://example.com/file/tb1d35twcp7oj3p").is_empty());
    assert!(targets("https://www.mediafire.com/file/abc").is_empty());
}

fn response(file_info: Option<FileInfo>, folder_info: Option<FolderInfo>) -> Response {
    Response {
        action: "get_info".into(),
        folder_info,
        file_info,
        result: "Success".into(),
        current_api_version: "1.5".into(),
    }
}

#[test]
fn file_from_a_description() {
    let info = FileInfo {
        quickkey: "tb1d35twcp7oj3p".into(),
        filename: "a.zip".into(),
        ready: "yes".into(),
        created: String::new(),
        description: String::new(),
        size: "10".into(),
        privacy: "public".into(),
        password_protected: "no".into(),
        hash: "h".into(),
        filetype: String::new(),
        mimetype: String::new(),
        owner_name: String::new(),
        flag: String::new(),
        permissions: perms(),
        revision: String::new(),
        view: String::new(),
        edit: String::new(),
        links: Links { normal_download: "https://x".into() },
        created_utc: String::new(),
    };
    let f = file_of_info(response(Some(info), None)).unwrap();
    assert_eq!((f.filename.as_str(), f.size.as_str(), f.downloads.as_str()), ("a.zip", "10", ""));
    assert!(file_of_info(response(None, None)).is_none());
}

#[test]
fn folder_walk_from_a_description() {
    let info = FolderInfo {
        folderkey: "xqub019s2e2l1".into(),
        name: "Photos".into(),
        description: String::new(),
        created: String::new(),
        privacy: String::new(),
        file_count: "0".into(),
        folder_count: "0".into(),
        revision: String::new(),
        owner_name: String::new(),
        avatar: String::new(),
        flag: String::new(),
        permissions: perms(),
        created_utc: String::new(),
    };
    let (name, walk) = folder_walk_of_info("xqub019s2e2l1".into(), response(None, Some(info))).unwrap();
    assert_eq!(name, "Photos");
    assert_eq!(next(&walk), Some(("xqub019s2e2l1".into(), vec!["Photos".into()], ContentKind::Files, 1)));
    assert!(folder_walk_of_info("k".into(), response(None, None)).is_none());
}
