//! Directory entries as one scan of a directory reports them.

use vstd::prelude::*;

verus! {

/// One direct child of the scanned directory.
///
/// `last_modified` counts nanoseconds from the Unix epoch; an earlier time is
/// negative. Entries are compared by it and by nothing else.
#[derive(Debug, PartialEq, Eq)]
pub struct FileEntry {
    pub path: String,
    pub last_modified: i128,
    pub is_regular_file: bool,
}

impl Clone for FileEntry {
    fn clone(&self) -> (copy: Self)
        ensures
            copy == *self,
    {
        FileEntry {
            path: self.path.clone(),
            last_modified: self.last_modified,
            is_regular_file: self.is_regular_file,
        }
    }
}

/// The entries that a scan keeps of what it probed: every child whose
/// metadata could be read, in the order of the probes. A child whose metadata
/// could not be read is `None` among the probes and is left out.
pub open spec fn kept(probes: Seq<Option<FileEntry>>) -> Seq<FileEntry> {
    probes.filter_map(|probe: Option<FileEntry>| probe)
}

/// Leaves out the children whose metadata could not be read and keeps the
/// others as they were probed.
pub fn kept_entries(probes: Vec<Option<FileEntry>>) -> (entries: Vec<FileEntry>)
    ensures
        entries@ == kept(probes@),
{
    let mut entries: Vec<FileEntry> = Vec::new();
    for probe in it: probes
        invariant
            it.seq() == probes@,
            entries@ == kept(probes@.take(it.index())),
    {
        proof {
            probes@.lemma_filter_map_take_succ(|probe: Option<FileEntry>| probe, it.index());
        }
        if let Some(entry) = probe {
            entries.push(entry);
        }
    }
    proof {
        assert(probes@.take(probes@.len() as int) =~= probes@);
    }
    entries
}

} // verus!
