//! Selection of the latest regular file among the entries of a scan.
//!
//! Only regular files can be selected. Among them the one with the greatest
//! modification time is the latest; where several share that time, the first
//! of them in the scan is.

use crate::entry::FileEntry;
use vstd::prelude::*;

verus! {

/// Whether some entry of the scan is a regular file.
pub open spec fn has_regular_file(entries: Seq<FileEntry>) -> bool {
    exists|j: int| 0 <= j < entries.len() && (#[trigger] entries[j]).is_regular_file
}

/// Whether the entry at `at` is the latest among the first `upto` entries: a
/// regular file that none of the regular files among them is newer than, and
/// that is newer than each of those before it.
pub open spec fn is_latest_among(entries: Seq<FileEntry>, upto: int, at: int) -> bool {
    &&& 0 <= at < upto <= entries.len()
    &&& entries[at].is_regular_file
    &&& forall|j: int|
        0 <= j < upto && (#[trigger] entries[j]).is_regular_file ==> entries[j].last_modified
            <= entries[at].last_modified
    &&& forall|j: int|
        0 <= j < at && (#[trigger] entries[j]).is_regular_file ==> entries[j].last_modified
            < entries[at].last_modified
}

/// Whether the entry at `at` is the latest of the scan.
pub open spec fn is_latest(entries: Seq<FileEntry>, at: int) -> bool {
    is_latest_among(entries, entries.len() as int, at)
}

/// The position of the latest entry of the scan, or `None` where the scan
/// holds no regular file.
pub open spec fn latest(entries: Seq<FileEntry>) -> Option<int> {
    if exists|at: int| is_latest(entries, at) {
        Some(choose|at: int| is_latest(entries, at))
    } else {
        None
    }
}

/// A scan has at most one latest entry.
pub proof fn lemma_latest_is_unique(entries: Seq<FileEntry>, first: int, second: int)
    requires
        is_latest(entries, first),
        is_latest(entries, second),
    ensures
        first == second,
{
}

/// The entry at `at` is the latest of the scan exactly if `latest` gives its
/// position.
pub proof fn lemma_latest_is(entries: Seq<FileEntry>, at: int)
    ensures
        is_latest(entries, at) <==> latest(entries) == Some(at),
{
    if is_latest(entries, at) {
        lemma_latest_is_unique(entries, at, latest(entries).unwrap());
    }
}

/// Among the first `upto` entries there is a latest one, or none of them is
/// a regular file.
proof fn lemma_latest_among(entries: Seq<FileEntry>, upto: int)
    requires
        0 <= upto <= entries.len(),
    ensures
        (exists|at: int| is_latest_among(entries, upto, at)) || (forall|j: int|
            0 <= j < upto ==> !(#[trigger] entries[j]).is_regular_file),
    decreases upto,
{
    if upto > 0 {
        lemma_latest_among(entries, upto - 1);
        let last = upto - 1;
        if entries[last].is_regular_file {
            if exists|at: int| is_latest_among(entries, last, at) {
                let at = choose|at: int| is_latest_among(entries, last, at);
                if entries[at].last_modified < entries[last].last_modified {
                    assert(is_latest_among(entries, upto, last));
                } else {
                    assert(is_latest_among(entries, upto, at));
                }
            } else {
                assert(is_latest_among(entries, upto, last));
            }
        } else {
            if exists|at: int| is_latest_among(entries, last, at) {
                let at = choose|at: int| is_latest_among(entries, last, at);
                assert(is_latest_among(entries, upto, at));
            }
        }
    }
}

/// A scan has a latest entry exactly if it holds a regular file, and the
/// latest entry is a regular file. A scan without entries has none.
pub proof fn lemma_latest_is_regular_file(entries: Seq<FileEntry>)
    ensures
        latest(entries) is Some <==> has_regular_file(entries),
        latest(entries) matches Some(at) ==> 0 <= at < entries.len()
            && entries[at].is_regular_file,
        entries.len() == 0 ==> latest(entries) is None,
{
    lemma_latest_among(entries, entries.len() as int);
    if latest(entries) is Some {
        assert(is_latest(entries, latest(entries).unwrap()));
    } else if has_regular_file(entries) {
        let at = choose|at: int| is_latest_among(entries, entries.len() as int, at);
        assert(is_latest(entries, at));
    }
}

/// Where every entry of a scan is a regular file, the latest is the first of
/// those with the greatest modification time: none has a greater one, and
/// each before it has a smaller one.
pub proof fn lemma_latest_of_regular_files(entries: Seq<FileEntry>)
    requires
        entries.len() > 0,
        forall|j: int| 0 <= j < entries.len() ==> (#[trigger] entries[j]).is_regular_file,
    ensures
        latest(entries) is Some,
        0 <= latest(entries).unwrap() < entries.len(),
        forall|j: int|
            0 <= j < entries.len() ==> (#[trigger] entries[j]).last_modified
                <= entries[latest(entries).unwrap()].last_modified,
        forall|j: int|
            0 <= j < latest(entries).unwrap() ==> (#[trigger] entries[j]).last_modified
                < entries[latest(entries).unwrap()].last_modified,
{
    assert(entries[0].is_regular_file);
    lemma_latest_is_regular_file(entries);
    assert(is_latest(entries, latest(entries).unwrap()));
}

/// What is no regular file is never selected, whatever its modification
/// time: giving such an entry another time leaves the latest of the scan
/// where it was.
pub proof fn lemma_other_entries_do_not_count(entries: Seq<FileEntry>, at: int, time: i128)
    requires
        0 <= at < entries.len(),
        !entries[at].is_regular_file,
    ensures
        latest(
            entries.update(
                at,
                FileEntry { path: entries[at].path, last_modified: time, is_regular_file: false },
            ),
        ) == latest(entries),
{
    let changed = entries.update(
        at,
        FileEntry { path: entries[at].path, last_modified: time, is_regular_file: false },
    );
    assert forall|i: int| is_latest(entries, i) <==> is_latest(changed, i) by {
        assert forall|j: int| 0 <= j < entries.len() && j != at implies changed[j]
            == entries[j] by {}
    }
    if latest(entries) is Some {
        lemma_latest_is(entries, latest(entries).unwrap());
        lemma_latest_is(changed, latest(entries).unwrap());
    } else if latest(changed) is Some {
        lemma_latest_is(changed, latest(changed).unwrap());
        lemma_latest_is(entries, latest(changed).unwrap());
    }
}

/// Finds the position of the latest entry of the scan.
pub fn latest_index(entries: &Vec<FileEntry>) -> (found: Option<usize>)
    ensures
        found is Some <==> has_regular_file(entries@),
        match found {
            Some(at) => latest(entries@) == Some(at as int) && is_latest(entries@, at as int),
            None => latest(entries@) is None,
        },
{
    let mut found: Option<usize> = None;
    let mut next: usize = 0;
    while next < entries.len()
        invariant
            next <= entries.len(),
            match found {
                Some(at) => is_latest_among(entries@, next as int, at as int),
                None => forall|j: int| 0 <= j < next ==> !(#[trigger] entries@[j]).is_regular_file,
            },
        decreases entries.len() - next,
    {
        if entries[next].is_regular_file {
            match found {
                Some(at) => {
                    if entries[at].last_modified < entries[next].last_modified {
                        found = Some(next);
                    }
                },
                None => {
                    found = Some(next);
                },
            }
        }
        next += 1;
    }
    proof {
        match found {
            Some(at) => {
                lemma_latest_is(entries@, at as int);
            },
            None => {
                assert forall|at: int| !is_latest(entries@, at) by {}
            },
        }
    }
    found
}

/// Selects the latest entry of the scan.
pub fn select_latest(entries: &Vec<FileEntry>) -> (selected: Option<&FileEntry>)
    ensures
        selected is Some <==> has_regular_file(entries@),
        match selected {
            Some(entry) => latest(entries@) is Some && *entry == entries@[latest(
                entries@,
            ).unwrap()],
            None => latest(entries@) is None,
        },
{
    match latest_index(entries) {
        Some(at) => Some(&entries[at]),
        None => None,
    }
}

} // verus!
