use vstd::prelude::*;

use crate::types::file::File;
use crate::types::folder::Folder;

verus! {

/// The answer of `folder/get_content`.
#[derive(Debug, PartialEq, Eq)]
pub struct Response {
    pub action: String,
    pub asynchronous: String,
    pub folder_content: FolderContent,
    pub result: String,
    pub current_api_version: String,
}

/// One chunk of a folder's files or sub-folders.
#[derive(Debug, PartialEq, Eq)]
pub struct FolderContent {
    pub chunk_size: String,
    pub content_type: String,
    pub chunk_number: String,
    pub folderkey: String,
    pub folders: Option<Vec<Folder>>,
    pub files: Option<Vec<File>>,
    pub more_chunks: String,
    pub revision: String,
}

/// Access rights, in the shape that folder listings carry them.
#[derive(Debug, PartialEq, Eq)]
pub struct Permissions {
    pub value: String,
    pub explicit: String,
    pub read: String,
    pub write: String,
}

/// The envelope around a `folder/get_content` answer.
#[derive(Debug, PartialEq, Eq)]
pub struct Root {
    pub response: Response,
}

} // verus!
