//! Filtering of directory listings.
//!
//! The application reads a directory once and hands the library a
//! `DirSnapshot`: either the failure it ran into, or the entries it could
//! read, each with its path, its kind, and — for readable regular files —
//! its lines.  `scan_dir` works on that snapshot alone, so its behaviour is
//! a function of plain values.

use vstd::prelude::*;
use crate::error::ConsignError;

verus! {

/// Which directory entries a scan returns.
#[derive(Debug, Clone, Copy, PartialEq, Eq, Structural)]
pub enum ScanFilter {
    FilesOnly,
    DirectoriesOnly,
    All,
}

/// One directory entry as the application read it.
#[derive(Debug)]
pub struct FsEntry {
    pub path: String,
    pub is_dir: bool,
    /// `Some(lines)` for a regular file that could be read; `None` for a
    /// directory or for a file whose read failed.
    pub lines: Option<Vec<String>>,
}

/// The mathematical content of an `FsEntry`.
pub struct FsEntryModel {
    pub path: Seq<char>,
    pub is_dir: bool,
    pub lines: Option<Seq<Seq<char>>>,
}

impl View for FsEntry {
    type V = FsEntryModel;

    open spec fn view(&self) -> FsEntryModel {
        FsEntryModel { path: self.path@, is_dir: self.is_dir, lines: self.lines.deep_view() }
    }
}

impl DeepView for FsEntry {
    type V = FsEntryModel;

    open spec fn deep_view(&self) -> FsEntryModel {
        self.view()
    }
}

/// What the application found when it tried to list a directory.
#[derive(Debug)]
pub enum DirSnapshot {
    /// The path does not resolve to a directory.
    NotADirectory,
    /// The listing itself failed; the message says how.
    Unreadable(String),
    /// The entries that could be read, in enumeration order; entries whose
    /// read failed were dropped by the application, as the scan tolerates.
    Listed(Vec<FsEntry>),
}

/// The mathematical content of a `DirSnapshot`.
pub enum DirSnapshotModel {
    NotADirectory,
    Unreadable(Seq<char>),
    Listed(Seq<FsEntryModel>),
}

impl View for DirSnapshot {
    type V = DirSnapshotModel;

    open spec fn view(&self) -> DirSnapshotModel {
        match self {
            DirSnapshot::NotADirectory => DirSnapshotModel::NotADirectory,
            DirSnapshot::Unreadable(m) => DirSnapshotModel::Unreadable(m@),
            DirSnapshot::Listed(es) => DirSnapshotModel::Listed(es.deep_view()),
        }
    }
}

/// Whether the filter keeps this entry.
pub open spec fn entry_matches(e: FsEntryModel, filter: ScanFilter) -> bool {
    match filter {
        ScanFilter::FilesOnly => !e.is_dir,
        ScanFilter::DirectoriesOnly => e.is_dir,
        ScanFilter::All => true,
    }
}

/// The paths of the entries the filter keeps, in enumeration order.
pub open spec fn scan_paths(entries: Seq<FsEntryModel>, filter: ScanFilter) -> Seq<Seq<char>>
    decreases entries.len(),
{
    if entries.len() == 0 {
        Seq::empty()
    } else {
        let rest = scan_paths(entries.drop_last(), filter);
        if entry_matches(entries.last(), filter) {
            rest.push(entries.last().path)
        } else {
            rest
        }
    }
}

/// Lists the immediate children of a directory that pass the filter.
/// Fails exactly when the snapshot says the path is not a directory or its
/// listing could not be read.
pub fn scan_dir(dir: &DirSnapshot, filter: ScanFilter) -> (r: Result<Vec<String>, ConsignError>)
    ensures
        match dir@ {
            DirSnapshotModel::NotADirectory => (r matches Err(ConsignError::GeneralFailure(m))
                && m@ == "Path is not a directory"@),
            DirSnapshotModel::Unreadable(why) => (r matches Err(ConsignError::IoError(m)) && m@
                == why),
            DirSnapshotModel::Listed(es) => (r matches Ok(v) && v.deep_view() == scan_paths(
                es,
                filter,
            )),
        },
{
    match dir {
        DirSnapshot::NotADirectory => Err(
            ConsignError::GeneralFailure(String::from_str("Path is not a directory")),
        ),
        DirSnapshot::Unreadable(m) => Err(ConsignError::IoError(m.clone())),
        DirSnapshot::Listed(entries) => {
            let ghost es = entries.deep_view();
            let mut r: Vec<String> = Vec::new();
            let mut i: usize = 0;
            proof {
                assert(r.deep_view() =~= scan_paths(es.take(0), filter));
            }
            while i < entries.len()
                invariant
                    i <= entries@.len(),
                    es == entries.deep_view(),
                    es.len() == entries@.len(),
                    r.deep_view() == scan_paths(es.take(i as int), filter),
                decreases entries@.len() - i,
            {
                let e = &entries[i];
                let keep = match filter {
                    ScanFilter::FilesOnly => !e.is_dir,
                    ScanFilter::DirectoriesOnly => e.is_dir,
                    ScanFilter::All => true,
                };
                proof {
                    assert(es.take(i as int + 1).drop_last() =~= es.take(i as int));
                    assert(es.take(i as int + 1).last() == es[i as int]);
                    assert(es[i as int] == entries@[i as int]@);
                    assert(keep == entry_matches(es[i as int], filter));
                }
                if keep {
                    let ghost pre = r.deep_view();
                    r.push(e.path.clone());
                    proof {
                        assert(r.deep_view() =~= pre.push(es[i as int].path));
                    }
                }
                i = i + 1;
            }
            proof {
                assert(es.take(es.len() as int) =~= es);
            }
            Ok(r)
        },
    }
}

/// On a directory of files alone, `FilesOnly` returns every entry's path;
/// on a directory of directories alone, `DirectoriesOnly` does; and `All`
/// always returns every entry's path, so its result counts files plus
/// directories.
pub proof fn lemma_scan_dir_complete(entries: Seq<FsEntryModel>)
    ensures
        (forall|i: int| 0 <= i < entries.len() ==> !(#[trigger] entries[i]).is_dir)
            ==> scan_paths(entries, ScanFilter::FilesOnly) == entries.map_values(
            |e: FsEntryModel| e.path,
        ),
        (forall|i: int| 0 <= i < entries.len() ==> (#[trigger] entries[i]).is_dir)
            ==> scan_paths(entries, ScanFilter::DirectoriesOnly) == entries.map_values(
            |e: FsEntryModel| e.path,
        ),
        scan_paths(entries, ScanFilter::All) == entries.map_values(|e: FsEntryModel| e.path),
        scan_paths(entries, ScanFilter::All).len() == entries.len(),
    decreases entries.len(),
{
    if entries.len() == 0 {
        assert(scan_paths(entries, ScanFilter::FilesOnly) =~= entries.map_values(
            |e: FsEntryModel| e.path,
        ));
        assert(scan_paths(entries, ScanFilter::DirectoriesOnly) =~= entries.map_values(
            |e: FsEntryModel| e.path,
        ));
        assert(scan_paths(entries, ScanFilter::All) =~= entries.map_values(
            |e: FsEntryModel| e.path,
        ));
    } else {
        let t = entries.drop_last();
        lemma_scan_dir_complete(t);
        assert(forall|i: int| 0 <= i < t.len() ==> t[i] == entries[i]);
        assert(t.map_values(|e: FsEntryModel| e.path).push(entries.last().path) =~= entries
            .map_values(|e: FsEntryModel| e.path));
    }
}

/// Some entry that the filter keeps has this path.
pub open spec fn path_of_matching_entry(
    entries: Seq<FsEntryModel>,
    filter: ScanFilter,
    p: Seq<char>,
) -> bool {
    exists|i: int|
        0 <= i < entries.len() && entry_matches(#[trigger] entries[i], filter) && entries[i].path
            == p
}

/// Every path `FilesOnly` returns belongs to a non-directory entry, and the
/// path of every non-directory entry is returned: the scan returns exactly
/// the regular files.  The same holds of `DirectoriesOnly` and the
/// directory entries.
pub proof fn lemma_scan_dir_exact(entries: Seq<FsEntryModel>, filter: ScanFilter)
    ensures
        forall|j: int| 0 <= j < scan_paths(entries, filter).len() ==> path_of_matching_entry(
            entries,
            filter,
            #[trigger] scan_paths(entries, filter)[j],
        ),
        forall|i: int| 0 <= i < entries.len() && entry_matches(#[trigger] entries[i], filter)
            ==> scan_paths(entries, filter).contains(entries[i].path),
    decreases entries.len(),
{
    if entries.len() > 0 {
        let t = entries.drop_last();
        lemma_scan_dir_exact(t, filter);
        assert(forall|i: int| 0 <= i < t.len() ==> t[i] == entries[i]);
        let out = scan_paths(entries, filter);
        let prev = scan_paths(t, filter);
        assert forall|j: int| 0 <= j < out.len() implies path_of_matching_entry(
            entries,
            filter,
            #[trigger] out[j],
        ) by {
            if j < prev.len() {
                assert(out[j] == prev[j]);
                assert(path_of_matching_entry(t, filter, scan_paths(t, filter)[j]));
                let i = choose|i: int|
                    0 <= i < t.len() && entry_matches(#[trigger] t[i], filter) && t[i].path
                        == prev[j];
                assert(entry_matches(entries[i], filter) && entries[i].path == out[j]);
            } else {
                assert(entry_matches(entries.last(), filter));
                let i = entries.len() - 1;
                assert(entry_matches(entries[i], filter) && entries[i].path == out[j]);
            }
        }
        assert forall|i: int|
            0 <= i < entries.len() && entry_matches(#[trigger] entries[i], filter) implies out
            .contains(entries[i].path) by {
            if i < t.len() {
                assert(prev.contains(t[i].path));
                let j = choose|j: int| 0 <= j < prev.len() && prev[j] == t[i].path;
                assert(out[j] == prev[j]);
            } else {
                assert(out.last() == entries[i].path);
                assert(out[out.len() - 1] == entries[i].path);
            }
        }
    }
}

} // verus!
