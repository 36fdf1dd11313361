use vstd::prelude::*;

verus! {

/// What a MediaFire key points to, told apart by the key's length.
#[derive(Debug, Clone, Copy, PartialEq, Eq, Structural)]
pub enum FileType {
    File,
    Folder,
    Invalid,
}

/// The kind of a key whose UTF-8 encoding is `len` bytes long:
/// file keys are 15 bytes, folder keys 13, anything else is invalid.
pub open spec fn key_kind(len: nat) -> FileType {
    if len == 15 {
        FileType::File
    } else if len == 13 {
        FileType::Folder
    } else {
        FileType::Invalid
    }
}

impl FileType {
    /// Classifies a key by its byte length.
    pub fn from_key(key: &str) -> (res: FileType)
        ensures
            res == key_kind(key.len() as nat),
    {
        match key.len() {
            15 => FileType::File,
            13 => FileType::Folder,
            _ => FileType::Invalid,
        }
    }
}

} // verus!
