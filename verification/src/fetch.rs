//! The steps of one fetch.
//!
//! A fetch lists a directory, selects the latest regular file in it, reads
//! that file and answers with its lines. Listing and reading are the
//! caller's part. The library decides what is done with what they report:
//! `resolve_directory` gives the directory to list, `after_scan` takes the
//! listing and gives the file to read or the answer, and `after_read` takes
//! what was read and gives the answer. Nothing is kept from one fetch to the
//! next.

use crate::entry::FileEntry;
use crate::lines::{is_line, lemma_written_lines_read_back, lines_of, split_lines, written};
use crate::select::{
    has_regular_file, is_latest, latest, lemma_latest_is, lemma_latest_is_regular_file,
    select_latest,
};
use vstd::prelude::*;

verus! {

/// The directory that is listed where no other is configured.
pub const DEFAULT_DIRECTORY: &'static str = "./logs";

/// The environment variable whose value, where it is set, replaces
/// `DEFAULT_DIRECTORY`.
pub const DIRECTORY_VARIABLE: &'static str = "LOG_FILE_DIRECTORY";

/// Why a fetch gave no lines.
#[derive(Debug, Clone, Copy, PartialEq, Eq, Structural)]
pub enum FetchError {
    /// The directory does not exist or cannot be listed.
    DirectoryUnavailable,
    /// The selected file could not be read.
    FileUnreadable,
}

/// The answer of one fetch.
#[derive(Debug, PartialEq, Eq)]
pub enum FetchResult {
    /// The lines of the latest file, in the order of the file.
    Lines(Vec<String>),
    /// The directory holds no regular file.
    NoData,
    /// The fetch failed.
    Failed(FetchError),
}

/// What remains to be done once the directory has been listed.
#[derive(Debug, PartialEq, Eq)]
pub enum Plan {
    /// Read the file at this path.
    Read(String),
    /// Answer with this result.
    Finish(FetchResult),
}

/// What a `FetchResult` stands for in contracts: its view.
pub enum Outcome {
    Lines(Seq<Seq<char>>),
    NoData,
    Failed(FetchError),
}

/// What a `Plan` stands for in contracts: its view.
pub enum Step {
    Read(Seq<char>),
    Finish(Outcome),
}

impl View for FetchResult {
    type V = Outcome;

    open spec fn view(&self) -> Outcome {
        match self {
            FetchResult::Lines(lines) => Outcome::Lines(lines.deep_view()),
            FetchResult::NoData => Outcome::NoData,
            FetchResult::Failed(error) => Outcome::Failed(*error),
        }
    }
}

impl View for Plan {
    type V = Step;

    open spec fn view(&self) -> Step {
        match self {
            Plan::Read(path) => Step::Read(path@),
            Plan::Finish(result) => Step::Finish(result@),
        }
    }
}

impl FetchResult {
    /// The answer as the caller of a fetch receives it: the lines where there
    /// are any, no line where the directory held no regular file, and the
    /// error where the fetch failed.
    pub fn into_lines(self) -> (response: Result<Vec<String>, FetchError>)
        ensures
            match self {
                FetchResult::Lines(lines) => response == Ok::<Vec<String>, FetchError>(lines),
                FetchResult::NoData => response matches Ok(lines) && lines@.len() == 0,
                FetchResult::Failed(error) => response == Err::<Vec<String>, FetchError>(error),
            },
    {
        match self {
            FetchResult::Lines(lines) => Ok(lines),
            FetchResult::NoData => Ok(Vec::new()),
            FetchResult::Failed(error) => Err(error),
        }
    }
}

/// The directory of a fetch: the override where there is one, else
/// `DEFAULT_DIRECTORY`.
pub open spec fn directory_for(override_dir: Option<Seq<char>>) -> Seq<char> {
    match override_dir {
        Some(directory) => directory,
        None => DEFAULT_DIRECTORY@,
    }
}

/// What follows a listing. `None` stands for a directory that could not be
/// listed. A listing without a regular file ends the fetch with `NoData`;
/// any other has the latest of its entries read.
pub open spec fn step_after_scan(scan: Option<Seq<FileEntry>>) -> Step {
    match scan {
        None => Step::Finish(Outcome::Failed(FetchError::DirectoryUnavailable)),
        Some(entries) => match latest(entries) {
            None => Step::Finish(Outcome::NoData),
            Some(at) => Step::Read(entries[at].path@),
        },
    }
}

/// The answer to what was read. `None` stands for a file that could not be
/// read.
pub open spec fn outcome_of_read(content: Option<Seq<char>>) -> Outcome {
    match content {
        None => Outcome::Failed(FetchError::FileUnreadable),
        Some(text) => Outcome::Lines(lines_of(text)),
    }
}

/// The answer of a fetch whose listing gave `scan` and in which reading the
/// selected file, where one was selected, gave `content`.
pub open spec fn fetch_outcome(
    scan: Option<Seq<FileEntry>>,
    content: Option<Seq<char>>,
) -> Outcome {
    match step_after_scan(scan) {
        Step::Finish(outcome) => outcome,
        Step::Read(_) => outcome_of_read(content),
    }
}

/// A directory without a regular file is answered with `NoData`, not with a
/// failure: nothing is selected in it, and the fetch ends there, whatever a
/// read would have given.
pub proof fn lemma_no_regular_file_gives_no_data(
    entries: Seq<FileEntry>,
    content: Option<Seq<char>>,
)
    requires
        !has_regular_file(entries),
    ensures
        latest(entries) is None,
        step_after_scan(Some(entries)) == Step::Finish(Outcome::NoData),
        fetch_outcome(Some(entries), content) == Outcome::NoData,
{
    lemma_latest_is_regular_file(entries);
}

/// An empty directory is answered with `NoData`, not with a failure.
pub proof fn lemma_empty_directory_gives_no_data(
    entries: Seq<FileEntry>,
    content: Option<Seq<char>>,
)
    requires
        entries.len() == 0,
    ensures
        latest(entries) is None,
        fetch_outcome(Some(entries), content) == Outcome::NoData,
{
    lemma_no_regular_file_gives_no_data(entries, content);
}

/// A directory that cannot be listed is answered with the failure
/// `DirectoryUnavailable`.
pub proof fn lemma_unavailable_directory_fails(content: Option<Seq<char>>)
    ensures
        fetch_outcome(None, content) == Outcome::Failed(FetchError::DirectoryUnavailable),
{
}

/// Where the entry at `at` is the latest of the listing, the fetch reads the
/// file at its path and answers with the lines of that file, or with the
/// failure `FileUnreadable` where it could not be read.
pub proof fn lemma_fetch_reads_latest(
    entries: Seq<FileEntry>,
    at: int,
    content: Option<Seq<char>>,
)
    requires
        is_latest(entries, at),
    ensures
        step_after_scan(Some(entries)) == Step::Read(entries[at].path@),
        fetch_outcome(Some(entries), content) == match content {
            Some(text) => Outcome::Lines(lines_of(text)),
            None => Outcome::Failed(FetchError::FileUnreadable),
        },
{
    lemma_latest_is(entries, at);
}

/// Lines that were written to the latest file of a directory are what a
/// fetch of that directory answers with, in the same order.
pub proof fn lemma_written_lines_are_fetched_back(
    entries: Seq<FileEntry>,
    at: int,
    lines: Seq<Seq<char>>,
)
    requires
        is_latest(entries, at),
        forall|i: int| 0 <= i < lines.len() ==> is_line(#[trigger] lines[i]),
    ensures
        fetch_outcome(Some(entries), Some(written(lines))) == Outcome::Lines(lines),
{
    lemma_fetch_reads_latest(entries, at, Some(written(lines)));
    lemma_written_lines_read_back(lines);
}

/// Gives the directory to list.
pub fn resolve_directory(override_dir: Option<String>) -> (directory: String)
    ensures
        directory@ == directory_for(
            match override_dir {
                Some(given) => Some(given@),
                None => None,
            },
        ),
{
    match override_dir {
        Some(given) => given,
        None => DEFAULT_DIRECTORY.to_owned(),
    }
}

/// Decides what follows the listing of the directory.
pub fn after_scan(scan: Option<Vec<FileEntry>>) -> (plan: Plan)
    ensures
        plan@ == step_after_scan(
            match scan {
                Some(entries) => Some(entries@),
                None => None,
            },
        ),
{
    match scan {
        None => Plan::Finish(FetchResult::Failed(FetchError::DirectoryUnavailable)),
        Some(entries) => match select_latest(&entries) {
            None => Plan::Finish(FetchResult::NoData),
            Some(entry) => Plan::Read(entry.path.clone()),
        },
    }
}

/// Turns what was read of the selected file into the answer of the fetch.
pub fn after_read(content: Option<String>) -> (result: FetchResult)
    ensures
        result@ == outcome_of_read(
            match content {
                Some(text) => Some(text@),
                None => None,
            },
        ),
{
    match content {
        None => FetchResult::Failed(FetchError::FileUnreadable),
        Some(text) => FetchResult::Lines(split_lines(text.as_str())),
    }
}

} // verus!
