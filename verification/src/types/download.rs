use vstd::prelude::*;

use std::cmp::Ordering;
use std::path::PathBuf;

use crate::size::{compare_sizes, size_compare, size_compare_is_an_order, SizeOrder};
use crate::types::file::File;

verus! {

/// A file to download and the directory it goes to.
#[derive(Debug, PartialEq, Eq)]
pub struct DownloadJob {
    pub file: File,
    pub path: PathBuf,
}

/// Whether a job whose file has size field `a` goes before (or together
/// with) one of size `b`: smaller files first, or larger files first when
/// `largest_first` is set, by the order of `size_compare`.
pub open spec fn goes_first(a: Seq<char>, b: Seq<char>, largest_first: bool) -> bool {
    if largest_first {
        size_compare(a, b) >= 0
    } else {
        size_compare(a, b) <= 0
    }
}

/// The priority order of two jobs by their files' size fields: the job that
/// goes first is the greater one, as a max-heap of jobs pops it first.
pub open spec fn priority_order(a: Seq<char>, b: Seq<char>, largest_first: bool) -> Ordering {
    if size_compare(a, b) == 0 {
        Ordering::Equal
    } else if goes_first(a, b, largest_first) {
        Ordering::Greater
    } else {
        Ordering::Less
    }
}

impl DownloadJob {
    /// A job that saves `file` under the directory `path`.
    pub fn new(file: File, path: PathBuf) -> (res: Self)
        ensures
            res.file == file,
            res.path == path,
    {
        DownloadJob { file, path }
    }

    /// Orders two jobs for the download queue by the sizes of their files.
    pub fn compare_priority(&self, other: &Self, largest_first: bool) -> (res: Ordering)
        ensures
            res == priority_order(self.file.size@, other.file.size@, largest_first),
    {
        proof {
            size_compare_is_an_order(self.file.size@, other.file.size@, self.file.size@);
        }
        match compare_sizes(self.file.size.as_str(), other.file.size.as_str()) {
            SizeOrder::Same => Ordering::Equal,
            SizeOrder::Smaller => if largest_first {
                Ordering::Less
            } else {
                Ordering::Greater
            },
            SizeOrder::Larger => if largest_first {
                Ordering::Greater
            } else {
                Ordering::Less
            },
        }
    }
}

/// Any two jobs can be ordered: one of them goes first.
pub proof fn goes_first_is_total(a: Seq<char>, b: Seq<char>, largest_first: bool)
    ensures
        goes_first(a, b, largest_first) || goes_first(b, a, largest_first),
{
    size_compare_is_an_order(a, b, a);
}

/// Going first is transitive.
pub proof fn goes_first_is_transitive(a: Seq<char>, b: Seq<char>, c: Seq<char>, largest_first: bool)
    requires
        goes_first(a, b, largest_first),
        goes_first(b, c, largest_first),
    ensures
        goes_first(a, c, largest_first),
{
    size_compare_is_an_order(a, b, c);
    size_compare_is_an_order(c, b, a);
    size_compare_is_an_order(b, c, a);
    size_compare_is_an_order(a, c, b);
}

/// The priority order agrees with going first, and swapping the two jobs
/// swaps the answer.
pub proof fn priority_order_is_consistent(a: Seq<char>, b: Seq<char>, largest_first: bool)
    ensures
        (priority_order(a, b, largest_first) != Ordering::Less) == goes_first(a, b, largest_first),
        priority_order(a, b, largest_first) == Ordering::Less <==> priority_order(b, a, largest_first) == Ordering::Greater,
        priority_order(a, b, largest_first) == Ordering::Equal <==> priority_order(b, a, largest_first) == Ordering::Equal,
{
    size_compare_is_an_order(a, b, a);
}

} // verus!
