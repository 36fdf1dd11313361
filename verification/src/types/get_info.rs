use vstd::prelude::*;

use crate::types::file::FileInfo;
use crate::types::folder::FolderInfo;

verus! {

/// The envelope around a `get_info` answer.
#[derive(Debug, PartialEq, Eq)]
pub struct Root {
    pub response: Response,
}

/// The answer of `file/get_info` or `folder/get_info`.
#[derive(Debug, PartialEq, Eq)]
pub struct Response {
    pub action: String,
    pub folder_info: Option<FolderInfo>,
    pub file_info: Option<FileInfo>,
    pub result: String,
    pub current_api_version: String,
}

} // verus!
