use vstd::prelude::*;

use crate::types::permissions::Permissions;

verus! {

/// A sub-folder entry of a folder listing.
#[derive(Debug, PartialEq, Eq)]
pub struct Folder {
    pub folderkey: String,
    pub name: String,
    pub description: String,
    pub tags: String,
    pub privacy: String,
    pub created: String,
    pub revision: String,
    pub flag: String,
    pub permissions: Permissions,
    pub file_count: String,
    pub folder_count: String,
    pub dropbox_enabled: String,
    pub created_utc: String,
}

/// The description of a single folder, as `folder/get_info` returns it.
#[derive(Debug, PartialEq, Eq)]
pub struct FolderInfo {
    pub folderkey: String,
    pub name: String,
    pub description: String,
    pub created: String,
    pub privacy: String,
    pub file_count: String,
    pub folder_count: String,
    pub revision: String,
    pub owner_name: String,
    pub avatar: String,
    pub flag: String,
    pub permissions: Permissions,
    pub created_utc: String,
}

} // verus!
