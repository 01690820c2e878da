//! One configuration root directory and the source files found in it.

use vstd::prelude::*;
use crate::dirscan::{DirSnapshot, DirSnapshotModel, FsEntryModel};
use crate::error::ConsignError;
use crate::package::PackageModel;
use crate::portage_file::{packages_of_lines, PortageFile, PortageFileModel};

verus! {

/// One configuration root: its label, its path, and the source files read
/// beneath it, in enumeration order.
#[derive(Debug)]
pub struct PortageDir {
    pub dirname: String,
    pub path: String,
    pub filelist: Vec<PortageFile>,
}

/// The mathematical content of a `PortageDir`.
pub struct PortageDirModel {
    pub dirname: Seq<char>,
    pub path: Seq<char>,
    pub filelist: Seq<PortageFileModel>,
}

impl View for PortageDir {
    type V = PortageDirModel;

    open spec fn view(&self) -> PortageDirModel {
        PortageDirModel {
            dirname: self.dirname@,
            path: self.path@,
            filelist: self.filelist.deep_view(),
        }
    }
}

impl DeepView for PortageDir {
    type V = PortageDirModel;

    open spec fn deep_view(&self) -> PortageDirModel {
        self.view()
    }
}

/// The source files a directory listing yields: every readable regular
/// file, parsed; sub-directories are never descended into, and a file
/// whose read failed is omitted without aborting the scan.
pub open spec fn files_of_entries(es: Seq<FsEntryModel>) -> Seq<PortageFileModel>
    decreases es.len(),
{
    if es.len() == 0 {
        Seq::empty()
    } else {
        let e = es.last();
        let rest = files_of_entries(es.drop_last());
        match e.lines {
            Some(ls) => if e.is_dir {
                rest
            } else {
                rest + seq![PortageFileModel { path: e.path, packages: packages_of_lines(ls) }]
            },
            None => rest,
        }
    }
}

impl PortageDir {
    /// A root record with no files yet.
    pub fn new(name: String) -> (d: PortageDir)
        ensures
            d.dirname == name,
            d.path@ == Seq::<char>::empty(),
            d.filelist.deep_view() == Seq::<PortageFileModel>::empty(),
    {
        let d = PortageDir { dirname: name, path: String::new(), filelist: Vec::new() };
        proof {
            assert(d.filelist.deep_view() =~= Seq::<PortageFileModel>::empty());
        }
        d
    }

    /// Walks one directory snapshot, parsing every readable regular file
    /// and appending it to the file list.  Fails exactly when the snapshot
    /// says the path is not a directory or its listing could not be read;
    /// an individual unreadable file is skipped, not an error.
    pub fn scan_dir_for_files(&mut self, dir: &DirSnapshot) -> (r: Result<(), ConsignError>)
        ensures
            match dir@ {
                DirSnapshotModel::Listed(es) => {
                    &&& r is Ok
                    &&& final(self).dirname == old(self).dirname
                    &&& final(self).path == old(self).path
                    &&& final(self).filelist.deep_view() == old(self).filelist.deep_view()
                        + files_of_entries(es)
                },
                DirSnapshotModel::NotADirectory => *final(self) == *old(self) && (r matches Err(
                    ConsignError::GeneralFailure(m),
                ) && m@ == "Path is not a directory"@),
                DirSnapshotModel::Unreadable(why) => *final(self) == *old(self) && (r matches Err(
                    ConsignError::IoError(m),
                ) && m@ == why),
            },
    {
        match dir {
            DirSnapshot::NotADirectory => Err(
                ConsignError::GeneralFailure(String::from_str("Path is not a directory")),
            ),
            DirSnapshot::Unreadable(m) => Err(ConsignError::IoError(m.clone())),
            DirSnapshot::Listed(entries) => {
                let ghost es = entries.deep_view();
                let mut i: usize = 0;
                proof {
                    assert(es.take(0) =~= Seq::<FsEntryModel>::empty());
                    assert(self.filelist.deep_view() + files_of_entries(es.take(0)) =~= self
                        .filelist
                        .deep_view());
                }
                while i < entries.len()
                    invariant
                        i <= entries@.len(),
                        es == entries.deep_view(),
                        es.len() == entries@.len(),
                        self.dirname == old(self).dirname,
                        self.path == old(self).path,
                        self.filelist.deep_view() == old(self).filelist.deep_view()
                            + files_of_entries(es.take(i as int)),
                    decreases entries@.len() - i,
                {
                    proof {
                        assert(es.take(i as int + 1).drop_last() =~= es.take(i as int));
                        assert(es.take(i as int + 1).last() == es[i as int]);
                        assert(es[i as int] == entries@[i as int]@);
                    }
                    let e = &entries[i];
                    if !e.is_dir {
                        match &e.lines {
                            Some(ls) => {
                                let mut pf = PortageFile::new(e.path.clone());
                                pf.scan_file_for_packages(ls);
                                let ghost pre = self.filelist.deep_view();
                                let ghost m = pf@;
                                proof {
                                    assert(Seq::<PackageModel>::empty()
                                        + packages_of_lines(ls.deep_view())
                                        =~= packages_of_lines(ls.deep_view()));
                                    assert(m == PortageFileModel {
                                        path: es[i as int].path,
                                        packages: packages_of_lines(ls.deep_view()),
                                    });
                                }
                                self.filelist.push(pf);
                                proof {
                                    assert(self.filelist.deep_view() =~= pre.push(m));
                                    assert(files_of_entries(es.take(i as int + 1))
                                        == files_of_entries(es.take(i as int)) + seq![m]);
                                    assert(old(self).filelist.deep_view() + (files_of_entries(
                                        es.take(i as int),
                                    ) + seq![m]) =~= pre.push(m));
                                }
                            },
                            None => {
                                proof {
                                    assert(files_of_entries(es.take(i as int + 1))
                                        =~= files_of_entries(es.take(i as int)));
                                }
                            },
                        }
                    } else {
                        proof {
                            assert(files_of_entries(es.take(i as int + 1)) =~= files_of_entries(
                                es.take(i as int),
                            ));
                        }
                    }
                    i = i + 1;
                }
                proof {
                    assert(es.take(es.len() as int) =~= es);
                }
                Ok(())
            },
        }
    }
}

} // verus!
