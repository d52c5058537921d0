//! Listing and reading files: the order of a directory listing, how a file
//! is read depending on its size, and which lines of a log are shown.
//! Touching the file system is the caller's business.

use vstd::prelude::*;
use vstd::string::StringExecFns;
use crate::ordering::{
    is_ranked, is_text_before, lemma_stable_sorted_is_permutation, lemma_stable_sorted_is_ranked,
    lemma_text_before_total, lemma_text_order_is_linear, ranks_are_linear, stable_sort,
    stable_sorted, text_before, Ranked,
};
use crate::text::{chars_of, lowercase_of};

verus! {

/// The size up to which a file is read as text in one go, in bytes.
pub const DIRECT_READ_LIMIT: u64 = 1024 * 1024;

/// One entry of a directory listing.
#[derive(Clone, Debug, PartialEq, Eq)]
pub struct FileEntry {
    pub name: String,
    pub path: String,
    pub is_directory: bool,
    pub size: u64,
    pub modified: Option<String>,
}

impl Ranked for FileEntry {
    /// Directories rank before files; within each, entries rank by their
    /// lower-cased names.
    open spec fn before(&self, other: &Self) -> bool {
        if self.is_directory != other.is_directory {
            self.is_directory
        } else {
            text_before(lowercase_of(self.name@), lowercase_of(other.name@))
        }
    }

    fn ranks_before(&self, other: &Self) -> (b: bool) {
        if self.is_directory != other.is_directory {
            self.is_directory
        } else {
            let mine = chars_of(self.name.as_str().to_lowercase().as_str());
            let theirs = chars_of(other.name.as_str().to_lowercase().as_str());
            is_text_before(&mine, &theirs)
        }
    }
}

/// The ranks of directory entries form a line.
pub proof fn lemma_file_ranks_are_linear()
    ensures
        ranks_are_linear::<FileEntry>(),
{
    assert forall|a: FileEntry, b: FileEntry| #[trigger] a.before(&b) implies !b.before(&a) by {
        lemma_text_before_total(lowercase_of(a.name@), lowercase_of(b.name@));
    }
    assert forall|a: FileEntry, b: FileEntry, c: FileEntry|
        !(#[trigger] a.before(&b)) && !(#[trigger] b.before(&c)) implies !a.before(&c) by {
        if a.is_directory == b.is_directory && b.is_directory == c.is_directory {
            lemma_text_order_is_linear(
                lowercase_of(a.name@),
                lowercase_of(b.name@),
                lowercase_of(c.name@),
            );
        }
    }
}

/// Puts a directory listing in order: directories first, then by name
/// without regard to case; entries of the same rank stay as they are. The
/// listing holds the same entries afterwards, and none of them ranks before
/// one in front of it.
pub fn sort_entries(files: &mut Vec<FileEntry>)
    ensures
        final(files)@ == stable_sorted(old(files)@),
        final(files)@.to_multiset() == old(files)@.to_multiset(),
        is_ranked(final(files)@),
{
    proof {
        lemma_file_ranks_are_linear();
        lemma_stable_sorted_is_ranked(files@);
        lemma_stable_sorted_is_permutation(files@);
    }
    stable_sort(files);
}

/// How a file is to be read.
#[derive(Clone, Copy, Debug, PartialEq, Eq, Structural)]
pub enum ReadPlan {
    /// Read it as text in one go; invalid UTF-8 is an error.
    Direct,
    /// Read its bytes off the main task and decode them leniently.
    Lenient,
}

/// How a path with the given metadata is read: a directory is refused, a
/// file of at most one mebibyte is read directly, a larger one leniently.
pub fn read_plan(is_directory: bool, size: u64) -> (plan: Result<ReadPlan, String>)
    ensures
        is_directory ==> (plan matches Err(text) && text@ == "指定路径是目录，无法作为文件读取"@),
        !is_directory && size <= DIRECT_READ_LIMIT ==> plan == Ok::<ReadPlan, String>(
            ReadPlan::Direct,
        ),
        !is_directory && size > DIRECT_READ_LIMIT ==> plan == Ok::<ReadPlan, String>(
            ReadPlan::Lenient,
        ),
{
    if is_directory {
        Err("指定路径是目录，无法作为文件读取".to_owned())
    } else if size <= DIRECT_READ_LIMIT {
        Ok(ReadPlan::Direct)
    } else {
        Ok(ReadPlan::Lenient)
    }
}

/// The last `limit` items of `lines`, or all of them where there are no more
/// or where there is no limit.
pub open spec fn last_lines<T>(lines: Seq<T>, limit: Option<usize>) -> Seq<T> {
    match limit {
        Some(n) => if lines.len() > n {
            lines.skip(lines.len() - n)
        } else {
            lines
        },
        None => lines,
    }
}

/// Keeps the last `limit` lines of a log.
pub fn tail_lines(lines: Vec<String>, limit: Option<usize>) -> (shown: Vec<String>)
    ensures
        shown@ == last_lines(lines@, limit),
{
    let mut lines = lines;
    match limit {
        Some(n) => {
            if lines.len() > n {
                let at = lines.len() - n;
                let tail = lines.split_off(at);
                tail
            } else {
                lines
            }
        },
        None => lines,
    }
}

/// The name of the log file of a day: the configured name, a dot, the date.
pub fn log_file_name(base: &str, date: &str) -> (name: String)
    ensures
        name@ == base@ + "."@ + date@,
{
    let mut name = base.to_owned();
    name.append(".");
    name.append(date);
    name
}

} // verus!
