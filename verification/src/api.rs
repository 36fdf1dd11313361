use vstd::prelude::*;

use crate::text::{decimal, decimal_string};

verus! {

pub const BASE_URL_FILE_GET_INFO: &'static str = "https://www.mediafire.com/api/1.5/file/get_info.php?response_format=json&quick_key=";

pub const BASE_URL_FOLDER_GET_INFO: &'static str = "https://www.mediafire.com/api/1.5/folder/get_info.php?response_format=json&folder_key=";

pub const BASE_URL_FOLDER_GET_CONTENT: &'static str = "https://www.mediafire.com/api/1.5/folder/get_content.php?response_format=json&folder_key=";

/// The request for the description of file `file_key`.
pub fn file_info_url(file_key: &str) -> (res: String)
    ensures
        res@ == BASE_URL_FILE_GET_INFO@ + file_key@,
{
    let mut s = String::from_str(BASE_URL_FILE_GET_INFO);
    s.append(file_key);
    s
}

/// The request for the description of folder `folder_key`.
pub fn folder_info_url(folder_key: &str) -> (res: String)
    ensures
        res@ == BASE_URL_FOLDER_GET_INFO@ + folder_key@,
{
    let mut s = String::from_str(BASE_URL_FOLDER_GET_INFO);
    s.append(folder_key);
    s
}

/// The request for chunk `chunk` of the `content_type` entries (`files` or
/// `folders`) of folder `folder_key`.
pub fn folder_content_url(folder_key: &str, content_type: &str, chunk: u32) -> (res: String)
    ensures
        res@ == BASE_URL_FOLDER_GET_CONTENT@ + folder_key@ + "&content_type="@ + content_type@
            + "&chunk="@ + decimal(chunk as nat),
{
    let mut s = String::from_str(BASE_URL_FOLDER_GET_CONTENT);
    s.append(folder_key);
    s.append("&content_type=");
    s.append(content_type);
    s.append("&chunk=");
    let n = decimal_string(chunk as u64);
    s.append(n.as_str());
    s
}

} // verus!
