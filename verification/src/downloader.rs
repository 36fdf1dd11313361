use vstd::prelude::*;

use crate::progress::DownloadProgress;
use crate::text::views;
use crate::types::file::{file_from_info, File};
use crate::types::file_type::{key_kind, FileType};
use crate::types::folder::Folder;
use crate::types::get_content::FolderContent;
use crate::types::get_info;
use crate::utils::{html_first_attr, match_mediafire_valid_url, mediafire_keys, parse_download_link};

verus! {

// ---------------------------------------------------------------------------
// From links to what they name
// ---------------------------------------------------------------------------

/// A file or folder that a link names, by its key.
pub enum LinkTarget {
    File(String),
    Folder(String),
}

/// A link target as plain values: whether it is a folder, and its key.
pub open spec fn target_view(t: LinkTarget) -> (bool, Seq<char>) {
    match t {
        LinkTarget::File(k) => (false, k@),
        LinkTarget::Folder(k) => (true, k@),
    }
}

/// The kind of a key, by the byte length of its UTF-8 encoding.
pub open spec fn key_kind_of(k: Seq<char>) -> FileType {
    key_kind((vstd::utf8::encode_utf8(k).len() as usize) as nat)
}

/// The targets that keys name, in order: file and folder keys, with keys of
/// any other length left out.
pub open spec fn targets_of(keys: Seq<Seq<char>>) -> Seq<(bool, Seq<char>)>
    decreases keys.len(),
{
    if keys.len() == 0 {
        Seq::empty()
    } else {
        let prev = targets_of(keys.drop_last());
        let k = keys.last();
        match key_kind_of(k) {
            FileType::File => prev.push((false, k)),
            FileType::Folder => prev.push((true, k)),
            FileType::Invalid => prev,
        }
    }
}

/// The target that one key names on its own: a file or a folder by the
/// key's length, or none.
pub open spec fn target_of_key(k: Seq<char>) -> Option<(bool, Seq<char>)> {
    if key_kind_of(k) == FileType::File {
        Some((false, k))
    } else if key_kind_of(k) == FileType::Folder {
        Some((true, k))
    } else {
        None
    }
}

/// Each key is judged on its own: the targets of a list of keys are those
/// of its keys that name a file or folder, in order, and the targets of two
/// lists one after the other are the targets of the first, then of the second.
pub proof fn targets_are_judged_key_by_key(a: Seq<Seq<char>>, b: Seq<Seq<char>>)
    ensures
        targets_of(a) == a.filter_map(|k: Seq<char>| target_of_key(k)),
        targets_of(a + b) == targets_of(a) + targets_of(b),
        forall|k: Seq<char>|
            #![trigger targets_of(a).contains((true, k))]
            targets_of(a).contains((true, k)) <==> a.contains(k) && key_kind_of(k) == FileType::Folder,
        forall|k: Seq<char>|
            #![trigger targets_of(a).contains((false, k))]
            targets_of(a).contains((false, k)) <==> a.contains(k) && key_kind_of(k) == FileType::File,
    decreases a.len() + b.len(),
{
    if b.len() > 0 {
        targets_are_judged_key_by_key(a, b.drop_last());
        assert((a + b).drop_last() =~= a + b.drop_last());
        assert((a + b).last() == b.last());
    } else {
        assert(a + b =~= a);
        assert(targets_of(b) =~= Seq::<(bool, Seq<char>)>::empty());
    }
    if a.len() > 0 {
        let init = a.drop_last();
        targets_are_judged_key_by_key(init, Seq::<Seq<char>>::empty());
        let t = targets_of(a);
        let pt = targets_of(init);
        let k0 = a.last();
        assert(a.filter_map(|k: Seq<char>| target_of_key(k)) =~= t) by {
            match target_of_key(k0) {
                Some(x) => {
                    assert(t =~= pt + seq![x]);
                },
                None => {},
            }
        }
        assert forall|k: Seq<char>| t.contains((true, k)) <==> a.contains(k) && key_kind_of(k) == FileType::Folder by {
            if t.contains((true, k)) {
                let m = choose|m: int| 0 <= m < t.len() && t[m] == (true, k);
                if m < pt.len() {
                    assert(pt[m] == t[m]);
                    assert(pt.contains((true, k)));
                    let j = choose|j: int| 0 <= j < init.len() && init[j] == k;
                    assert(a[j] == k);
                } else {
                    assert(a[a.len() - 1] == k);
                }
            }
            if a.contains(k) && key_kind_of(k) == FileType::Folder {
                let j = choose|j: int| 0 <= j < a.len() && a[j] == k;
                if j < init.len() {
                    assert(init[j] == k);
                    assert(pt.contains((true, k)));
                    let m = choose|m: int| 0 <= m < pt.len() && pt[m] == (true, k);
                    assert(t[m] == (true, k));
                } else {
                    assert(t[t.len() - 1] == (true, k));
                }
            }
        }
        assert forall|k: Seq<char>| t.contains((false, k)) <==> a.contains(k) && key_kind_of(k) == FileType::File by {
            if t.contains((false, k)) {
                let m = choose|m: int| 0 <= m < t.len() && t[m] == (false, k);
                if m < pt.len() {
                    assert(pt[m] == t[m]);
                    assert(pt.contains((false, k)));
                    let j = choose|j: int| 0 <= j < init.len() && init[j] == k;
                    assert(a[j] == k);
                } else {
                    assert(a[a.len() - 1] == k);
                }
            }
            if a.contains(k) && key_kind_of(k) == FileType::File {
                let j = choose|j: int| 0 <= j < a.len() && a[j] == k;
                if j < init.len() {
                    assert(init[j] == k);
                    assert(pt.contains((false, k)));
                    let m = choose|m: int| 0 <= m < pt.len() && pt[m] == (false, k);
                    assert(t[m] == (false, k));
                } else {
                    assert(t[t.len() - 1] == (false, k));
                }
            }
        }
    } else {
        assert(targets_of(a) =~= Seq::<(bool, Seq<char>)>::empty());
    }
}

/// The files and folders that a link names; none when it is no MediaFire link.
pub fn link_targets(url: &str) -> (res: Vec<LinkTarget>)
    ensures
        res@.map_values(|t: LinkTarget| target_view(t)) == match mediafire_keys(url@) {
            Some(keys) => targets_of(keys),
            None => Seq::empty(),
        },
{
    let mut res: Vec<LinkTarget> = Vec::new();
    let keys = match match_mediafire_valid_url(url) {
        Some(keys) => keys,
        None => {
            assert(res@.map_values(|t: LinkTarget| target_view(t)) =~= Seq::empty());
            return res;
        },
    };
    let ghost ks = views(keys@);
    let mut i: usize = 0;
    assert(ks.take(0) =~= Seq::<Seq<char>>::empty());
    assert(res@.map_values(|t: LinkTarget| target_view(t)) =~= Seq::empty());
    while i < keys.len()
        invariant
            i <= keys@.len(),
            ks == views(keys@),
            res@.map_values(|t: LinkTarget| target_view(t)) == targets_of(ks.take(i as int)),
        decreases keys@.len() - i,
    {
        let key = &keys[i];
        assert(ks.take(i + 1).drop_last() =~= ks.take(i as int));
        assert(ks.take(i + 1).last() == key@);
        let ghost prev = res@;
        match FileType::from_key(key.as_str()) {
            FileType::File => {
                res.push(LinkTarget::File(key.clone()));
                assert(res@.map_values(|t: LinkTarget| target_view(t)) =~= prev.map_values(
                    |t: LinkTarget| target_view(t),
                ).push((false, key@)));
            },
            FileType::Folder => {
                res.push(LinkTarget::Folder(key.clone()));
                assert(res@.map_values(|t: LinkTarget| target_view(t)) =~= prev.map_values(
                    |t: LinkTarget| target_view(t),
                ).push((true, key@)));
            },
            FileType::Invalid => {},
        }
        i = i + 1;
    }
    assert(ks.take(keys@.len() as int) =~= ks);
    res
}

/// The file to download that a file description names; `None` when the API
/// found no such file.
pub fn file_of_info(response: get_info::Response) -> (res: Option<File>)
    ensures
        match response.file_info {
            Some(info) => res matches Some(f) && file_from_info(info, f),
            None => res is None,
        },
{
    match response.file_info {
        Some(info) => Some(File::from(info)),
        None => None,
    }
}

/// The walk of the folder that a folder description names, into a directory
/// named after the folder, with that name; `None` when the API found no such folder.
pub fn folder_walk_of_info(key: String, response: get_info::Response) -> (res: Option<
    (String, FolderWalk),
>)
    ensures
        match response.folder_info {
            Some(info) => res matches Some(r) && r.0@ == info.name@ && r.1.pending() == seq![
                (key@, seq![info.name@], ContentKind::Files, 1u32),
            ],
            None => res is None,
        },
{
    match response.folder_info {
        Some(info) => {
            let name = info.name;
            let mut dirs: Vec<String> = Vec::new();
            dirs.push(name.clone());
            assert(views(dirs@) =~= seq![name@]);
            let walk = FolderWalk::new(key, dirs);
            Some((name, walk))
        },
        None => None,
    }
}

// ---------------------------------------------------------------------------
// Walking a folder tree
// ---------------------------------------------------------------------------

/// Which entries of a folder a listing request asks for.
#[derive(Debug, Clone, Copy, PartialEq, Eq, Structural)]
pub enum ContentKind {
    Files,
    Folders,
}

impl ContentKind {
    /// The value of the API's `content_type` parameter.
    pub fn as_param(&self) -> (res: &'static str)
        ensures
            res@ == content_kind_param(*self),
    {
        match self {
            ContentKind::Files => "files",
            ContentKind::Folders => "folders",
        }
    }
}

pub open spec fn content_kind_param(k: ContentKind) -> Seq<char> {
    match k {
        ContentKind::Files => "files"@,
        ContentKind::Folders => "folders"@,
    }
}

/// One listing request still to make: chunk `chunk` of the `kind` entries of
/// folder `key`, whose files go to the directories `dirs` under the output.
pub struct FolderTask {
    pub key: String,
    pub dirs: Vec<String>,
    pub kind: ContentKind,
    pub chunk: u32,
}

/// A listing request as plain values.
pub open spec fn task_view(t: FolderTask) -> (Seq<char>, Seq<Seq<char>>, ContentKind, u32) {
    (t.key@, views(t.dirs@), t.kind, t.chunk)
}

/// The files of one listing chunk and the directories they go to.
pub struct ChunkFiles {
    pub files: Vec<File>,
    pub dirs: Vec<String>,
}

/// The requests that follow a listed chunk of task `t`: one for each
/// sub-folder (its files first), then the next chunk of the same listing
/// when the API reports more, or else, after the files, the sub-folders.
pub open spec fn follow_up_tasks(
    t: (Seq<char>, Seq<Seq<char>>, ContentKind, u32),
    folders: Seq<Folder>,
    more: bool,
) -> Seq<(Seq<char>, Seq<Seq<char>>, ContentKind, u32)> {
    let subs = folders.map_values(
        |f: Folder| (f.folderkey@, t.1.push(f.name@), ContentKind::Files, 1u32),
    );
    let next = if more && t.3 < u32::MAX {
        seq![(t.0, t.1, t.2, (t.3 + 1) as u32)]
    } else if t.2 == ContentKind::Files {
        seq![(t.0, t.1, ContentKind::Folders, 1u32)]
    } else {
        Seq::empty()
    };
    subs + next
}

/// After a listed chunk, each sub-folder gets its own request, in listing
/// order: its key, the directories of the listed folder followed by the
/// sub-folder's name (one level deeper), its files first, from chunk 1. Then
/// comes, if the API reports more, the next chunk of the same listing, or
/// else after the files of a folder the listing of its sub-folders; after the
/// sub-folders' last chunk, nothing.
pub proof fn follow_ups_go_one_level_deeper(
    t: (Seq<char>, Seq<Seq<char>>, ContentKind, u32),
    folders: Seq<Folder>,
    more: bool,
)
    ensures
        ({
            let r = follow_up_tasks(t, folders, more);
            let continues = (more && t.3 < u32::MAX) || t.2 == ContentKind::Files;
            &&& r.len() == folders.len() + if continues { 1int } else { 0int }
            &&& forall|i: int|
                0 <= i < folders.len() ==> {
                    &&& (#[trigger] r[i]).0 == folders[i].folderkey@
                    &&& r[i].1.len() == t.1.len() + 1
                    &&& r[i].1.take(t.1.len() as int) == t.1
                    &&& r[i].1[t.1.len() as int] == folders[i].name@
                    &&& r[i].2 == ContentKind::Files
                    &&& r[i].3 == 1
                }
            &&& more && t.3 < u32::MAX ==> r.last() == (t.0, t.1, t.2, (t.3 + 1) as u32)
            &&& !(more && t.3 < u32::MAX) && t.2 == ContentKind::Files ==> r.last() == (
                t.0,
                t.1,
                ContentKind::Folders,
                1u32,
            )
        }),
{
    let r = follow_up_tasks(t, folders, more);
    assert forall|i: int| 0 <= i < folders.len() implies {
        &&& (#[trigger] r[i]).0 == folders[i].folderkey@
        &&& r[i].1.len() == t.1.len() + 1
        &&& r[i].1.take(t.1.len() as int) == t.1
        &&& r[i].1[t.1.len() as int] == folders[i].name@
        &&& r[i].2 == ContentKind::Files
        &&& r[i].3 == 1
    } by {
        assert(r[i].1 == t.1.push(folders[i].name@));
        assert(t.1.push(folders[i].name@).take(t.1.len() as int) =~= t.1);
    }
}

/// The listing requests of a folder tree still to make; the last one is next.
pub struct FolderWalk {
    tasks: Vec<FolderTask>,
}

/// A copy of a list of strings.
fn copy_strings(v: &Vec<String>) -> (res: Vec<String>)
    ensures
        views(res@) == views(v@),
{
    let mut res: Vec<String> = Vec::new();
    let mut i: usize = 0;
    while i < v.len()
        invariant
            i <= v@.len(),
            res@ == v@.take(i as int),
        decreases v@.len() - i,
    {
        res.push(v[i].clone());
        assert(res@ =~= v@.take(i + 1));
        i = i + 1;
    }
    assert(v@.take(v@.len() as int) =~= v@);
    res
}

impl FolderWalk {
    /// The requests still to make, the next one last.
    pub closed spec fn pending(&self) -> Seq<(Seq<char>, Seq<Seq<char>>, ContentKind, u32)> {
        self.tasks@.map_values(|t: FolderTask| task_view(t))
    }

    /// A walk of folder `key`, whose files go to the directories `dirs`.
    pub fn new(key: String, dirs: Vec<String>) -> (res: Self)
        ensures
            res.pending() == seq![(key@, views(dirs@), ContentKind::Files, 1u32)],
    {
        let mut tasks: Vec<FolderTask> = Vec::new();
        tasks.push(FolderTask { key, dirs, kind: ContentKind::Files, chunk: 1 });
        let res = FolderWalk { tasks };
        assert(res.pending() =~= seq![task_view(res.tasks@[0])]);
        res
    }

    /// The next listing request, or `None` when the walk is over.
    pub fn next_request(&self) -> (res: Option<&FolderTask>)
        ensures
            match res {
                Some(t) => self.pending().len() > 0 && task_view(*t) == self.pending().last(),
                None => self.pending().len() == 0,
            },
    {
        let n = self.tasks.len();
        if n == 0 {
            None
        } else {
            Some(&self.tasks[n - 1])
        }
    }

    /// Takes in the answer to the next request: queues what follows it and
    /// hands back the listed files with their directories.
    pub fn on_chunk(&mut self, content: FolderContent) -> (res: ChunkFiles)
        requires
            old(self).pending().len() > 0,
        ensures
            ({
                let t = old(self).pending().last();
                let folders = match content.folders {
                    Some(f) => f@,
                    None => Seq::<Folder>::empty(),
                };
                &&& final(self).pending() == old(self).pending().drop_last() + follow_up_tasks(
                    t,
                    folders,
                    content.more_chunks@ == "yes"@,
                )
                &&& res.files@ == match content.files {
                    Some(f) => f@,
                    None => Seq::<File>::empty(),
                }
                &&& views(res.dirs@) == t.1
            }),
    {
        let ghost before = self.pending();
        let task = self.tasks.pop().unwrap();
        assert(self.pending() =~= before.drop_last());
        let ghost t = task_view(task);
        assert(t == before.last());
        let folders = match content.folders {
            Some(f) => f,
            None => Vec::new(),
        };
        let ghost subs = folders@.map_values(
            |f: Folder| (f.folderkey@, t.1.push(f.name@), ContentKind::Files, 1u32),
        );
        let mut i: usize = 0;
        while i < folders.len()
            invariant
                i <= folders@.len(),
                t == task_view(task),
                subs == folders@.map_values(
                    |f: Folder| (f.folderkey@, t.1.push(f.name@), ContentKind::Files, 1u32),
                ),
                self.pending() == before.drop_last() + subs.take(i as int),
            decreases folders@.len() - i,
        {
            let mut dirs = copy_strings(&task.dirs);
            dirs.push(folders[i].name.clone());
            let sub = FolderTask {
                key: folders[i].folderkey.clone(),
                dirs,
                kind: ContentKind::Files,
                chunk: 1,
            };
            assert(views(sub.dirs@) =~= t.1.push(folders@[i as int].name@));
            assert(task_view(sub) == subs[i as int]);
            let ghost prev = self.pending();
            self.tasks.push(sub);
            assert(self.pending() =~= prev.push(task_view(sub)));
            assert(subs.take(i + 1) =~= subs.take(i as int).push(subs[i as int]));
            i = i + 1;
        }
        assert(subs.take(folders@.len() as int) =~= subs);
        let yes = String::from_str("yes");
        let more = content.more_chunks == yes;
        let ghost prev = self.pending();
        if more && task.chunk < u32::MAX {
            let next = FolderTask { key: task.key.clone(), dirs: copy_strings(&task.dirs), kind: task.kind, chunk: task.chunk + 1 };
            self.tasks.push(next);
            assert(self.pending() =~= prev.push(task_view(next)));
        } else if task.kind == ContentKind::Files {
            let next = FolderTask { key: task.key.clone(), dirs: copy_strings(&task.dirs), kind: ContentKind::Folders, chunk: 1 };
            self.tasks.push(next);
            assert(self.pending() =~= prev.push(task_view(next)));
        }
        assert(self.pending() =~= before.drop_last() + follow_up_tasks(t, folders@, more));
        let files = match content.files {
            Some(f) => f,
            None => Vec::new(),
        };
        ChunkFiles { files, dirs: task.dirs }
    }
}

// ---------------------------------------------------------------------------
// Downloading one file
// ---------------------------------------------------------------------------

/// What happened last while downloading one file.
pub enum DownloadEvent {
    /// The download starts; says whether the target file exists already.
    Begin { target_exists: bool },
    /// The file already there was checked against the hash.
    ExistingChecked { hash_ok: bool },
    /// The file's MediaFire page, with the link to the contents.
    PageFetched(String),
    /// The contents are saved.
    Transferred,
    /// The saved contents were checked against the hash.
    HashChecked { hash_ok: bool },
}

/// Why a download fails other than by a network or file error.
#[derive(Debug, Clone, Copy, PartialEq, Eq, Structural)]
pub enum DownloadFailure {
    /// The file page holds no download button link.
    NoDownloadLink,
    /// The saved contents do not match the reported hash.
    HashMismatch,
}

/// What to do next while downloading one file.
pub enum DownloadAction {
    /// Check the file already there against the hash.
    CheckExisting,
    /// Fetch the file's MediaFire page.
    FetchPage,
    /// Fetch the contents from this link and save them.
    FetchFile(String),
    /// Check the saved contents against the hash.
    CheckHash,
    /// The download is over, with this result.
    Finish(Result<(), DownloadFailure>),
}

/// The progress to report and the next action after an event of a download.
pub fn download_step(event: DownloadEvent) -> (res: (Option<DownloadProgress>, DownloadAction))
    ensures
        match event {
            DownloadEvent::Begin { target_exists } => if target_exists {
                res.0 == Some(DownloadProgress::TryResuming) && res.1 is CheckExisting
            } else {
                res.0 == Some(DownloadProgress::GettingLink) && res.1 is FetchPage
            },
            DownloadEvent::ExistingChecked { hash_ok } => if hash_ok {
                res.0 == Some(DownloadProgress::Done) && res.1 matches DownloadAction::Finish(Ok(_))
            } else {
                res.0 == Some(DownloadProgress::GettingLink) && res.1 is FetchPage
            },
            DownloadEvent::PageFetched(html) => res.0 is None && match html_first_attr(
                html@,
                "#downloadButton"@,
                "href"@,
            ) {
                Some(link) => res.1 matches DownloadAction::FetchFile(l) && l@ == link,
                None => res.1 == DownloadAction::Finish(Err(DownloadFailure::NoDownloadLink)),
            },
            DownloadEvent::Transferred => res.0 == Some(DownloadProgress::CheckingHash)
                && res.1 is CheckHash,
            DownloadEvent::HashChecked { hash_ok } => if hash_ok {
                res.0 == Some(DownloadProgress::Done) && res.1 matches DownloadAction::Finish(Ok(_))
            } else {
                res.0 is None && res.1 == DownloadAction::Finish(Err(DownloadFailure::HashMismatch))
            },
        },
{
    match event {
        DownloadEvent::Begin { target_exists } => if target_exists {
            (Some(DownloadProgress::TryResuming), DownloadAction::CheckExisting)
        } else {
            (Some(DownloadProgress::GettingLink), DownloadAction::FetchPage)
        },
        DownloadEvent::ExistingChecked { hash_ok } => if hash_ok {
            (Some(DownloadProgress::Done), DownloadAction::Finish(Ok(())))
        } else {
            (Some(DownloadProgress::GettingLink), DownloadAction::FetchPage)
        },
        DownloadEvent::PageFetched(html) => match parse_download_link(html.as_str()) {
            Some(link) => (None, DownloadAction::FetchFile(link)),
            None => (None, DownloadAction::Finish(Err(DownloadFailure::NoDownloadLink))),
        },
        DownloadEvent::Transferred => (Some(DownloadProgress::CheckingHash), DownloadAction::CheckHash),
        DownloadEvent::HashChecked { hash_ok } => if hash_ok {
            (Some(DownloadProgress::Done), DownloadAction::Finish(Ok(())))
        } else {
            (None, DownloadAction::Finish(Err(DownloadFailure::HashMismatch)))
        },
    }
}

} // verus!
