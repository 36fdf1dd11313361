use vstd::prelude::*;

use crate::types::permissions::Permissions;

verus! {

/// A file entry of a folder listing.
#[derive(Debug, PartialEq, Eq)]
pub struct File {
    pub quickkey: String,
    pub hash: String,
    pub filename: String,
    pub description: String,
    pub size: String,
    pub privacy: String,
    pub created: String,
    pub password_protected: String,
    pub mimetype: String,
    pub filetype: String,
    pub view: String,
    pub edit: String,
    pub revision: String,
    pub flag: String,
    pub permissions: Permissions,
    pub downloads: String,
    pub views: String,
    pub links: Links,
    pub created_utc: String,
}

/// The links of a file.
#[derive(Debug, PartialEq, Eq)]
pub struct Links {
    pub normal_download: String,
}

/// The description of a single file, as `file/get_info` returns it.
#[derive(Debug, PartialEq, Eq)]
pub struct FileInfo {
    pub quickkey: String,
    pub filename: String,
    pub ready: String,
    pub created: String,
    pub description: String,
    pub size: String,
    pub privacy: String,
    pub password_protected: String,
    pub hash: String,
    pub filetype: String,
    pub mimetype: String,
    pub owner_name: String,
    pub flag: String,
    pub permissions: Permissions,
    pub revision: String,
    pub view: String,
    pub edit: String,
    pub links: Links,
    pub created_utc: String,
}

/// Whether `file` carries the fields of `info`, with no download and view
/// counts (a single-file lookup reports none).
pub open spec fn file_from_info(info: FileInfo, file: File) -> bool {
    &&& file.quickkey == info.quickkey
    &&& file.hash == info.hash
    &&& file.filename == info.filename
    &&& file.description == info.description
    &&& file.size == info.size
    &&& file.privacy == info.privacy
    &&& file.created == info.created
    &&& file.password_protected == info.password_protected
    &&& file.mimetype == info.mimetype
    &&& file.filetype == info.filetype
    &&& file.view == info.view
    &&& file.edit == info.edit
    &&& file.revision == info.revision
    &&& file.flag == info.flag
    &&& file.permissions == info.permissions
    &&& file.downloads@ == Seq::<char>::empty()
    &&& file.views@ == Seq::<char>::empty()
    &&& file.links == info.links
    &&& file.created_utc == info.created_utc
}

/// `From` makes its claim in its own `ensures` (`file_from_info`): the
/// generic form `from_spec` would have to name the empty `String` values of
/// the two counters as spec values, which has no spec constructor, so the
/// generic claim is switched off.
impl vstd::std_specs::convert::FromSpecImpl<FileInfo> for File {
    open spec fn obeys_from_spec() -> bool {
        false
    }

    open spec fn from_spec(v: FileInfo) -> File {
        vstd::pervasive::arbitrary()
    }
}

impl From<FileInfo> for File {
    fn from(file_info: FileInfo) -> (res: File)
        ensures
            file_from_info(file_info, res),
    {
        File {
            quickkey: file_info.quickkey,
            hash: file_info.hash,
            filename: file_info.filename,
            description: file_info.description,
            size: file_info.size,
            privacy: file_info.privacy,
            created: file_info.created,
            password_protected: file_info.password_protected,
            mimetype: file_info.mimetype,
            filetype: file_info.filetype,
            view: file_info.view,
            edit: file_info.edit,
            revision: file_info.revision,
            flag: file_info.flag,
            permissions: file_info.permissions,
            downloads: String::new(),
            views: String::new(),
            links: file_info.links,
            created_utc: file_info.created_utc,
        }
    }
}

} // verus!
