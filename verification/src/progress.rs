use vstd::prelude::*;

use crate::download::{failure_notice, failure_notice_text};

verus! {

/// Where a download stands, as the downloader reports it.
#[derive(Debug, Clone, Copy, PartialEq, Eq, Structural)]
pub enum DownloadProgress {
    /// Bytes received so far, and bytes in all.
    Downloading(u64, u64),
    TryResuming,
    GettingLink,
    CheckingHash,
    Done,
}

/// The look of a file's progress bar.
#[derive(Debug, Clone, Copy, PartialEq, Eq, Structural)]
pub enum BarStyle {
    Normal,
    Error,
    Download,
}

/// A change to a file's progress bar. `None` leaves a setting as it is.
pub struct BarUpdate {
    /// Clear the bar first.
    pub reset: bool,
    pub style: BarStyle,
    pub prefix: String,
    pub message: Option<String>,
    pub length: Option<u64>,
    pub position: Option<u64>,
    /// Redraw now.
    pub tick: bool,
    /// Leave the bar as it is, with the message, and stop updating it.
    pub finish: bool,
}

/// The text of an optional message.
pub open spec fn message_text(m: Option<String>) -> Option<Seq<char>> {
    match m {
        Some(s) => Some(s@),
        None => None,
    }
}

/// How the bar of file `filename` shows a progress report.
pub fn progress_update(status: DownloadProgress, filename: &str) -> (res: BarUpdate)
    ensures
        !res.reset,
        match status {
            DownloadProgress::Downloading(partial, total) => {
                &&& res.style == BarStyle::Download
                &&& res.prefix@ == filename@
                &&& message_text(res.message) == Some("\u{1f53d}"@)
                &&& res.length == Some(total)
                &&& res.position == Some(partial)
                &&& !res.tick
                &&& !res.finish
            },
            DownloadProgress::TryResuming => {
                &&& res.style == BarStyle::Normal
                &&& res.prefix@ == "Try resuming..."@
                &&& message_text(res.message) == Some("\u{1f4ab}"@)
                &&& res.length is None && res.position is None
                &&& res.tick && !res.finish
            },
            DownloadProgress::GettingLink => {
                &&& res.style == BarStyle::Normal
                &&& res.prefix@ == "Getting link..."@
                &&& message_text(res.message) == Some("\u{1f300}"@)
                &&& res.length is None && res.position is None
                &&& res.tick && !res.finish
            },
            DownloadProgress::CheckingHash => {
                &&& res.style == BarStyle::Normal
                &&& res.prefix@ == "Checking hash..."@
                &&& message_text(res.message) == Some("\u{1f4be}"@)
                &&& res.length is None && res.position is None
                &&& res.tick && !res.finish
            },
            DownloadProgress::Done => {
                &&& res.style == BarStyle::Normal
                &&& res.prefix@ == filename@
                &&& message_text(res.message) == Some("\u{2705}"@)
                &&& res.length is None && res.position is None
                &&& res.tick && res.finish
            },
        },
{
    match status {
        DownloadProgress::Downloading(partial, total) => BarUpdate {
            reset: false,
            style: BarStyle::Download,
            prefix: String::from_str(filename),
            message: Some(String::from_str("\u{1f53d}")),
            length: Some(total),
            position: Some(partial),
            tick: false,
            finish: false,
        },
        DownloadProgress::TryResuming => BarUpdate {
            reset: false,
            style: BarStyle::Normal,
            prefix: String::from_str("Try resuming..."),
            message: Some(String::from_str("\u{1f4ab}")),
            length: None,
            position: None,
            tick: true,
            finish: false,
        },
        DownloadProgress::GettingLink => BarUpdate {
            reset: false,
            style: BarStyle::Normal,
            prefix: String::from_str("Getting link..."),
            message: Some(String::from_str("\u{1f300}")),
            length: None,
            position: None,
            tick: true,
            finish: false,
        },
        DownloadProgress::CheckingHash => BarUpdate {
            reset: false,
            style: BarStyle::Normal,
            prefix: String::from_str("Checking hash..."),
            message: Some(String::from_str("\u{1f4be}")),
            length: None,
            position: None,
            tick: true,
            finish: false,
        },
        DownloadProgress::Done => BarUpdate {
            reset: false,
            style: BarStyle::Normal,
            prefix: String::from_str(filename),
            message: Some(String::from_str("\u{2705}")),
            length: None,
            position: None,
            tick: true,
            finish: true,
        },
    }
}

/// How the bar of file `filename` looks when an attempt starts.
pub fn attempt_start_update(filename: &str) -> (res: BarUpdate)
    ensures
        res.reset,
        res.style == BarStyle::Normal,
        res.prefix@ == filename@,
        res.message is None,
        res.length is None && res.position is None,
        !res.tick && !res.finish,
{
    BarUpdate {
        reset: true,
        style: BarStyle::Normal,
        prefix: String::from_str(filename),
        message: None,
        length: None,
        position: None,
        tick: false,
        finish: false,
    }
}

/// How the bar looks after a failed attempt, with `tries_left` attempts still allowed.
pub fn failed_attempt_update(tries_left: u64) -> (res: BarUpdate)
    ensures
        !res.reset,
        res.style == BarStyle::Error,
        res.prefix@ == failure_notice_text(tries_left as nat),
        message_text(res.message) == Some("\u{1f503}"@),
        res.length is None && res.position is None,
        !res.tick && !res.finish,
{
    BarUpdate {
        reset: false,
        style: BarStyle::Error,
        prefix: failure_notice(tries_left),
        message: Some(String::from_str("\u{1f503}")),
        length: None,
        position: None,
        tick: false,
        finish: false,
    }
}

/// How the bar of file `filename` is left when its download has failed for good.
pub fn given_up_update(filename: &str) -> (res: BarUpdate)
    ensures
        !res.reset,
        res.style == BarStyle::Error,
        res.prefix@ == filename@,
        message_text(res.message) == Some("\u{274c}"@),
        res.length is None && res.position is None,
        !res.tick && res.finish,
{
    BarUpdate {
        reset: false,
        style: BarStyle::Error,
        prefix: String::from_str(filename),
        message: Some(String::from_str("\u{274c}")),
        length: None,
        position: None,
        tick: false,
        finish: true,
    }
}

} // verus!
