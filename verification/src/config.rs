use vstd::prelude::*;

use std::path::PathBuf;

verus! {

/// The settings of a run, as given on the command line.
#[derive(Debug)]
pub struct Config {
    /// Links of folders or files to download.
    pub urls: Vec<String>,
    /// A file with more links, one per line.
    pub input_file: Option<PathBuf>,
    /// Where the downloads go.
    pub output_path: PathBuf,
    /// How many downloads run at once.
    pub max: u64,
    /// How many attempts each download gets.
    pub tries: u64,
    /// Download the largest files first.
    pub reverse_order: bool,
    /// A file with proxies, one per line.
    pub proxy_file: Option<PathBuf>,
    /// Send the downloads themselves through the proxies too.
    pub proxy_downloads: bool,
}

impl Config {
    /// The settings, as given.
    pub fn new(
        urls: Vec<String>,
        input_file: Option<PathBuf>,
        output_path: PathBuf,
        max: u64,
        tries: u64,
        reverse_order: bool,
        proxy_file: Option<PathBuf>,
        proxy_downloads: bool,
    ) -> (res: Self)
        ensures
            res.urls == urls,
            res.input_file == input_file,
            res.output_path == output_path,
            res.max == max,
            res.tries == tries,
            res.reverse_order == reverse_order,
            res.proxy_file == proxy_file,
            res.proxy_downloads == proxy_downloads,
    {
        Config {
            urls,
            input_file,
            output_path,
            max,
            tries,
            reverse_order,
            proxy_file,
            proxy_downloads,
        }
    }
}

} // verus!
