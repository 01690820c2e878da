//! The configuration set: the five well-known roots of one scan run.

use vstd::prelude::*;
use crate::dirscan::{DirSnapshot, DirSnapshotModel};
use crate::error::ConsignError;
use crate::portage_dir::{files_of_entries, PortageDir, PortageDirModel};
use crate::portage_file::PortageFileModel;
use crate::text::{file_name_in_str, file_name_of};

verus! {

/// The five well-known configuration roots under one parent directory, as
/// the application found them when it read the filesystem.
#[derive(Debug)]
pub struct ConfigSnapshot {
    /// Whether the parent configuration directory exists at all.
    pub parent_exists: bool,
    pub package_use: DirSnapshot,
    pub package_mask: DirSnapshot,
    pub package_unmask: DirSnapshot,
    pub package_keywords: DirSnapshot,
    pub package_license: DirSnapshot,
}

/// The mathematical content of a `ConfigSnapshot`.
pub struct ConfigSnapshotModel {
    pub parent_exists: bool,
    pub package_use: DirSnapshotModel,
    pub package_mask: DirSnapshotModel,
    pub package_unmask: DirSnapshotModel,
    pub package_keywords: DirSnapshotModel,
    pub package_license: DirSnapshotModel,
}

impl View for ConfigSnapshot {
    type V = ConfigSnapshotModel;

    open spec fn view(&self) -> ConfigSnapshotModel {
        ConfigSnapshotModel {
            parent_exists: self.parent_exists,
            package_use: self.package_use@,
            package_mask: self.package_mask@,
            package_unmask: self.package_unmask@,
            package_keywords: self.package_keywords@,
            package_license: self.package_license@,
        }
    }
}

/// All parsed source trees of one run, one per root that could be scanned.
#[derive(Debug)]
pub struct PortageListing {
    pub categories: Vec<PortageDir>,
}

impl View for PortageListing {
    type V = Seq<PortageDirModel>;

    open spec fn view(&self) -> Seq<PortageDirModel> {
        self.categories.deep_view()
    }
}

impl Default for PortageListing {
    /// A listing with no trees yet.
    fn default() -> (r: Self)
        ensures
            r@ == Seq::<PortageDirModel>::empty(),
    {
        let r = PortageListing { categories: Vec::new() };
        proof {
            assert(r.categories.deep_view() =~= Seq::<PortageDirModel>::empty());
        }
        r
    }
}

/// The tree one root yields: its label is the path's final component, its
/// files are the readable regular files of the listing.  A root whose path
/// has no final component, or whose directory could not be listed, yields
/// nothing.
pub open spec fn scanned_tree(path: Seq<char>, d: DirSnapshotModel) -> Option<PortageDirModel> {
    if file_name_of(path).len() == 0 {
        None
    } else {
        match d {
            DirSnapshotModel::Listed(es) => Some(
                PortageDirModel {
                    dirname: file_name_of(path),
                    path: Seq::empty(),
                    filelist: files_of_entries(es),
                },
            ),
            _ => None,
        }
    }
}

/// Zero or one trees, as a sequence.
pub open spec fn opt_tree_seq(t: Option<PortageDirModel>) -> Seq<PortageDirModel> {
    match t {
        Some(x) => seq![x],
        None => Seq::empty(),
    }
}

/// The trees of all five roots that could be scanned, in the fixed order
/// of the well-known paths.
pub open spec fn trees_of_config(cfg: ConfigSnapshotModel) -> Seq<PortageDirModel> {
    opt_tree_seq(scanned_tree("/etc/portage/package.use"@, cfg.package_use)) + opt_tree_seq(
        scanned_tree("/etc/portage/package.mask"@, cfg.package_mask),
    ) + opt_tree_seq(scanned_tree("/etc/portage/package.unmask"@, cfg.package_unmask))
        + opt_tree_seq(scanned_tree("/etc/portage/package.keywords"@, cfg.package_keywords))
        + opt_tree_seq(scanned_tree("/etc/portage/package.license"@, cfg.package_license))
}

proof fn lemma_default_root_names()
    ensures
        file_name_of("/etc/portage/package.use"@) == "package.use"@,
        file_name_of("/etc/portage/package.mask"@) == "package.mask"@,
        file_name_of("/etc/portage/package.unmask"@) == "package.unmask"@,
        file_name_of("/etc/portage/package.keywords"@) == "package.keywords"@,
        file_name_of("/etc/portage/package.license"@) == "package.license"@,
{
    reveal_strlit("/etc/portage/package.use");
    reveal_strlit("package.use");
    let s1 = "/etc/portage/package.use"@;
    assert(forall|k: int| 13 <= k < s1.len() ==> s1[k] != '/');
    crate::text::lemma_file_name_from(s1, 13);
    assert(s1.skip(13) =~= "package.use"@);

    reveal_strlit("/etc/portage/package.mask");
    reveal_strlit("package.mask");
    let s2 = "/etc/portage/package.mask"@;
    assert(forall|k: int| 13 <= k < s2.len() ==> s2[k] != '/');
    crate::text::lemma_file_name_from(s2, 13);
    assert(s2.skip(13) =~= "package.mask"@);

    reveal_strlit("/etc/portage/package.unmask");
    reveal_strlit("package.unmask");
    let s3 = "/etc/portage/package.unmask"@;
    assert(forall|k: int| 13 <= k < s3.len() ==> s3[k] != '/');
    crate::text::lemma_file_name_from(s3, 13);
    assert(s3.skip(13) =~= "package.unmask"@);

    reveal_strlit("/etc/portage/package.keywords");
    reveal_strlit("package.keywords");
    let s4 = "/etc/portage/package.keywords"@;
    assert(forall|k: int| 13 <= k < s4.len() ==> s4[k] != '/');
    crate::text::lemma_file_name_from(s4, 13);
    assert(s4.skip(13) =~= "package.keywords"@);

    reveal_strlit("/etc/portage/package.license");
    reveal_strlit("package.license");
    let s5 = "/etc/portage/package.license"@;
    assert(forall|k: int| 13 <= k < s5.len() ==> s5[k] != '/');
    crate::text::lemma_file_name_from(s5, 13);
    assert(s5.skip(13) =~= "package.license"@);
}

/// The scan tolerates partial failure: every root whose directory was
/// listed contributes its tree, and the number of trees equals the number
/// of listed roots — so with one root missing and the others listed the
/// result still holds the others' trees, and it is empty exactly when no
/// root at all was listed.
pub proof fn lemma_partial_failure_tolerance(cfg: ConfigSnapshotModel)
    ensures
        trees_of_config(cfg).len() == (if cfg.package_use is Listed {
            1 as int
        } else {
            0
        }) + (if cfg.package_mask is Listed {
            1 as int
        } else {
            0
        }) + (if cfg.package_unmask is Listed {
            1 as int
        } else {
            0
        }) + (if cfg.package_keywords is Listed {
            1 as int
        } else {
            0
        }) + (if cfg.package_license is Listed {
            1 as int
        } else {
            0
        }),
        cfg.package_use matches DirSnapshotModel::Listed(es) ==> trees_of_config(cfg).contains(
            PortageDirModel {
                dirname: "package.use"@,
                path: Seq::empty(),
                filelist: files_of_entries(es),
            },
        ),
        cfg.package_mask matches DirSnapshotModel::Listed(es) ==> trees_of_config(cfg).contains(
            PortageDirModel {
                dirname: "package.mask"@,
                path: Seq::empty(),
                filelist: files_of_entries(es),
            },
        ),
        cfg.package_unmask matches DirSnapshotModel::Listed(es) ==> trees_of_config(cfg).contains(
            PortageDirModel {
                dirname: "package.unmask"@,
                path: Seq::empty(),
                filelist: files_of_entries(es),
            },
        ),
        cfg.package_keywords matches DirSnapshotModel::Listed(es) ==> trees_of_config(
            cfg,
        ).contains(
            PortageDirModel {
                dirname: "package.keywords"@,
                path: Seq::empty(),
                filelist: files_of_entries(es),
            },
        ),
        cfg.package_license matches DirSnapshotModel::Listed(es) ==> trees_of_config(cfg).contains(
            PortageDirModel {
                dirname: "package.license"@,
                path: Seq::empty(),
                filelist: files_of_entries(es),
            },
        ),
{
    lemma_default_root_names();
    reveal_strlit("package.use");
    reveal_strlit("package.mask");
    reveal_strlit("package.unmask");
    reveal_strlit("package.keywords");
    reveal_strlit("package.license");
    let t1 = opt_tree_seq(scanned_tree("/etc/portage/package.use"@, cfg.package_use));
    let t2 = opt_tree_seq(scanned_tree("/etc/portage/package.mask"@, cfg.package_mask));
    let t3 = opt_tree_seq(scanned_tree("/etc/portage/package.unmask"@, cfg.package_unmask));
    let t4 = opt_tree_seq(scanned_tree("/etc/portage/package.keywords"@, cfg.package_keywords));
    let t5 = opt_tree_seq(scanned_tree("/etc/portage/package.license"@, cfg.package_license));
    let trees = trees_of_config(cfg);
    assert(trees == t1 + t2 + t3 + t4 + t5);
    if cfg.package_use is Listed {
        assert(trees[0] == t1[0]);
    }
    if cfg.package_mask is Listed {
        assert(trees[t1.len() as int] == t2[0]);
    }
    if cfg.package_unmask is Listed {
        assert(trees[(t1.len() + t2.len()) as int] == t3[0]);
    }
    if cfg.package_keywords is Listed {
        assert(trees[(t1.len() + t2.len() + t3.len()) as int] == t4[0]);
    }
    if cfg.package_license is Listed {
        assert(trees[(t1.len() + t2.len() + t3.len() + t4.len()) as int] == t5[0]);
    }
}

impl PortageListing {
    /// Scans one root: labels it by the path's final component, walks its
    /// files and appends the tree.  Fails, leaving the listing unchanged,
    /// exactly when the path has no final component or its directory could
    /// not be listed.
    pub fn scan_dir_path(&mut self, path: &str, dir: &DirSnapshot) -> (r: Result<
        (),
        ConsignError,
    >)
        ensures
            match scanned_tree(path@, dir@) {
                Some(tree) => r is Ok && final(self)@ == old(self)@ + seq![tree],
                None => *final(self) == *old(self) && r is Err,
            },
            r is Err ==> if file_name_of(path@).len() == 0 {
                r matches Err(ConsignError::GeneralFailure(m)) && m@ == "Path has no file name"@
            } else {
                match dir@ {
                    DirSnapshotModel::NotADirectory => r matches Err(
                        ConsignError::GeneralFailure(m),
                    ) && m@ == "Path is not a directory"@,
                    DirSnapshotModel::Unreadable(why) => r matches Err(ConsignError::IoError(m))
                        && m@ == why,
                    DirSnapshotModel::Listed(_) => false,
                }
            },
    {
        let name = file_name_in_str(path);
        if name.as_str().is_empty() {
            return Err(ConsignError::GeneralFailure(String::from_str("Path has no file name")));
        }
        let mut portage_dir = PortageDir::new(name);
        match portage_dir.scan_dir_for_files(dir) {
            Ok(_) => {
                let ghost pre = self.categories.deep_view();
                let ghost m = portage_dir@;
                proof {
                    match dir@ {
                        DirSnapshotModel::Listed(es) => {
                            assert(Seq::<PortageFileModel>::empty() + files_of_entries(es)
                                =~= files_of_entries(es));
                        },
                        _ => {},
                    }
                }
                self.categories.push(portage_dir);
                proof {
                    assert(self.categories.deep_view() =~= pre.push(m));
                    assert(pre.push(m) =~= pre + seq![m]);
                }
                Ok(())
            },
            Err(e) => Err(e),
        }
    }

    /// Scans the five well-known roots independently, appending a tree for
    /// each root that could be scanned.  Fails, leaving the listing
    /// unchanged, exactly when the parent configuration directory is
    /// missing or no root at all could be scanned; any smaller set of
    /// failures is tolerated.
    pub fn scan_default_dir_path(&mut self, cfg: &ConfigSnapshot) -> (r: Result<(), ConsignError>)
        ensures
            !cfg.parent_exists ==> *final(self) == *old(self) && (r matches Err(
                ConsignError::DirNotFound(m),
            ) && m@ == "/etc/portage"@),
            cfg.parent_exists && trees_of_config(cfg@).len() == 0 ==> *final(self) == *old(self)
                && (r matches Err(ConsignError::DirNotFound(m)) && m@
                == "No portage configuration root could be scanned"@),
            cfg.parent_exists && trees_of_config(cfg@).len() > 0 ==> r is Ok && final(self)@ == old(
                self,
            )@ + trees_of_config(cfg@),
    {
        if !cfg.parent_exists {
            return Err(ConsignError::DirNotFound(String::from_str("/etc/portage")));
        }
        let ghost base = self.categories.deep_view();
        let ghost t1 = opt_tree_seq(scanned_tree("/etc/portage/package.use"@, cfg.package_use@));
        let ghost t2 = opt_tree_seq(scanned_tree("/etc/portage/package.mask"@, cfg.package_mask@));
        let ghost t3 = opt_tree_seq(
            scanned_tree("/etc/portage/package.unmask"@, cfg.package_unmask@),
        );
        let ghost t4 = opt_tree_seq(
            scanned_tree("/etc/portage/package.keywords"@, cfg.package_keywords@),
        );
        let ghost t5 = opt_tree_seq(
            scanned_tree("/etc/portage/package.license"@, cfg.package_license@),
        );

        let mut successes: usize = 0;
        let r1 = self.scan_dir_path("/etc/portage/package.use", &cfg.package_use);
        if r1.is_ok() {
            successes = successes + 1;
        }
        proof {
            assert(self.categories.deep_view() =~= base + t1);
            assert(successes as int == t1.len());
        }
        let r2 = self.scan_dir_path("/etc/portage/package.mask", &cfg.package_mask);
        if r2.is_ok() {
            successes = successes + 1;
        }
        proof {
            assert(self.categories.deep_view() =~= base + t1 + t2);
            assert(successes as int == t1.len() + t2.len());
        }
        let r3 = self.scan_dir_path("/etc/portage/package.unmask", &cfg.package_unmask);
        if r3.is_ok() {
            successes = successes + 1;
        }
        proof {
            assert(self.categories.deep_view() =~= base + t1 + t2 + t3);
            assert(successes as int == t1.len() + t2.len() + t3.len());
        }
        let r4 = self.scan_dir_path("/etc/portage/package.keywords", &cfg.package_keywords);
        if r4.is_ok() {
            successes = successes + 1;
        }
        proof {
            assert(self.categories.deep_view() =~= base + t1 + t2 + t3 + t4);
            assert(successes as int == t1.len() + t2.len() + t3.len() + t4.len());
        }
        let r5 = self.scan_dir_path("/etc/portage/package.license", &cfg.package_license);
        if r5.is_ok() {
            successes = successes + 1;
        }
        proof {
            assert(self.categories.deep_view() =~= base + t1 + t2 + t3 + t4 + t5);
            assert(successes as int == t1.len() + t2.len() + t3.len() + t4.len() + t5.len());
            assert(trees_of_config(cfg@) == t1 + t2 + t3 + t4 + t5);
            assert(base + t1 + t2 + t3 + t4 + t5 =~= base + (t1 + t2 + t3 + t4 + t5));
        }
        if successes == 0 {
            proof {
                assert(trees_of_config(cfg@).len() == 0);
            }
            return Err(
                ConsignError::DirNotFound(
                    String::from_str("No portage configuration root could be scanned"),
                ),
            );
        }
        Ok(())
    }
}

} // verus!
