use vstd::prelude::*;

use crate::text::{decimal, decimal_string};
use crate::types::download::DownloadJob;

verus! {

/// The line that reports a failed download.
pub open spec fn failure_line_text(filename: Seq<char>, error: Seq<char>, link: Seq<char>) -> Seq<
    char,
> {
    filename + " \u{b7} "@ + error + " \u{b7} "@ + link
}

/// Reports a failed download: its file name, the error and the download link.
pub fn failure_line(filename: &str, error: &str, link: &str) -> (res: String)
    ensures
        res@ == failure_line_text(filename@, error@, link@),
{
    let mut s = String::from_str(filename);
    s.append(" \u{b7} ");
    s.append(error);
    s.append(" \u{b7} ");
    s.append(link);
    s
}

/// The finished downloads: those that succeeded, and those that failed with their error.
pub struct Tally<E> {
    successful: Vec<DownloadJob>,
    failed: Vec<(DownloadJob, E)>,
}

impl<E> Tally<E> {
    /// The downloads that succeeded, in the order they finished.
    pub closed spec fn successes(&self) -> Seq<DownloadJob> {
        self.successful@
    }

    /// The downloads that failed, with their errors, in the order they finished.
    pub closed spec fn failures(&self) -> Seq<(DownloadJob, E)> {
        self.failed@
    }

    /// Nothing finished yet.
    pub fn new() -> (res: Self)
        ensures
            res.successes().len() == 0,
            res.failures().len() == 0,
    {
        Tally { successful: Vec::new(), failed: Vec::new() }
    }

    /// Files a finished download under its outcome.
    pub fn record(&mut self, job: DownloadJob, outcome: Result<(), E>)
        ensures
            match outcome {
                Ok(_) => final(self).successes() == old(self).successes().push(job)
                    && final(self).failures() == old(self).failures(),
                Err(e) => final(self).failures() == old(self).failures().push((job, e))
                    && final(self).successes() == old(self).successes(),
            },
    {
        match outcome {
            Ok(()) => self.successful.push(job),
            Err(e) => self.failed.push((job, e)),
        }
    }

    /// How many downloads succeeded.
    pub fn successful_count(&self) -> (res: usize)
        ensures
            res == self.successes().len(),
    {
        self.successful.len()
    }

    /// How many downloads failed.
    pub fn failed_count(&self) -> (res: usize)
        ensures
            res == self.failures().len(),
    {
        self.failed.len()
    }

    /// The overall bar's prefix: how many downloads failed.
    pub fn failed_text(&self) -> (res: String)
        ensures
            res@ == "Failed "@ + decimal(self.failures().len()),
    {
        let mut s = String::from_str("Failed ");
        let n = decimal_string(self.failed.len() as u64);
        s.append(n.as_str());
        s
    }

    /// The overall bar's message: how many downloads succeeded.
    pub fn successful_text(&self) -> (res: String)
        ensures
            res@ == "Successful "@ + decimal(self.successes().len()),
    {
        let mut s = String::from_str("Successful ");
        let n = decimal_string(self.successful.len() as u64);
        s.append(n.as_str());
        s
    }

    /// The failed downloads with their errors, in the order they finished.
    pub fn failed_downloads(&self) -> (res: &Vec<(DownloadJob, E)>)
        ensures
            res@ == self.failures(),
    {
        &self.failed
    }

    /// The failed downloads with their errors, in the order they finished.
    pub fn into_failures(self) -> (res: Vec<(DownloadJob, E)>)
        ensures
            res@ == self.failures(),
    {
        self.failed
    }
}

} // verus!
