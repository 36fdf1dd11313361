pub mod download;
pub mod file;
pub mod file_type;
pub mod folder;
pub mod get_content;
pub mod get_info;
pub mod permissions;
pub mod client;
