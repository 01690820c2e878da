//! One configuration file and the declarations parsed from its lines.

use vstd::prelude::*;
use crate::package::{line_model, Package, PackageModel};

verus! {

/// One configuration file: its path and the declarations parsed from it,
/// in line order.
#[derive(Debug)]
pub struct PortageFile {
    pub path: String,
    pub packages: Vec<Package>,
}

/// The mathematical content of a `PortageFile`.
pub struct PortageFileModel {
    pub path: Seq<char>,
    pub packages: Seq<PackageModel>,
}

impl View for PortageFile {
    type V = PortageFileModel;

    open spec fn view(&self) -> PortageFileModel {
        PortageFileModel { path: self.path@, packages: self.packages.deep_view() }
    }
}

impl DeepView for PortageFile {
    type V = PortageFileModel;

    open spec fn deep_view(&self) -> PortageFileModel {
        self.view()
    }
}

/// The declarations a file's lines yield, in line order; lines that carry
/// no declaration are dropped without a placeholder.
pub open spec fn packages_of_lines(lines: Seq<Seq<char>>) -> Seq<PackageModel>
    decreases lines.len(),
{
    if lines.len() == 0 {
        Seq::empty()
    } else {
        packages_of_lines(lines.drop_last()) + (match line_model(lines.last()) {
            Some(m) => seq![m],
            None => Seq::empty(),
        })
    }
}

impl PortageFile {
    /// A file record with no declarations yet.
    pub fn new(path: String) -> (f: PortageFile)
        ensures
            f.path == path,
            f.packages.deep_view() == Seq::<PackageModel>::empty(),
    {
        let f = PortageFile { path, packages: Vec::new() };
        proof {
            assert(f.packages.deep_view() =~= Seq::<PackageModel>::empty());
        }
        f
    }

    /// Parses every line in order, appending the declarations the lines
    /// yield; a line that parses to nothing is dropped and scanning
    /// continues, so bad lines never abort the file.
    pub fn scan_file_for_packages(&mut self, lines: &Vec<String>)
        ensures
            final(self).path == old(self).path,
            final(self).packages.deep_view() == old(self).packages.deep_view()
                + packages_of_lines(lines.deep_view()),
    {
        let ghost lv = lines.deep_view();
        let mut i: usize = 0;
        proof {
            assert(lv.take(0) =~= Seq::<Seq<char>>::empty());
            assert(self.packages.deep_view() + packages_of_lines(lv.take(0)) =~= self
                .packages
                .deep_view());
        }
        while i < lines.len()
            invariant
                i <= lines@.len(),
                lv == lines.deep_view(),
                lv.len() == lines@.len(),
                self.path == old(self).path,
                self.packages.deep_view() == old(self).packages.deep_view()
                    + packages_of_lines(lv.take(i as int)),
            decreases lines@.len() - i,
        {
            proof {
                assert(lv.take(i as int + 1).drop_last() =~= lv.take(i as int));
                assert(lv.take(i as int + 1).last() == lv[i as int]);
                assert(lv[i as int] == lines@[i as int]@);
            }
            match Package::try_from_line(lines[i].as_str()) {
                Ok(package) => {
                    let ghost pre = self.packages.deep_view();
                    let ghost m = package@;
                    self.packages.push(package);
                    proof {
                        assert(self.packages.deep_view() =~= pre.push(m));
                        assert(packages_of_lines(lv.take(i as int + 1)) == packages_of_lines(
                            lv.take(i as int),
                        ) + seq![m]);
                        assert(old(self).packages.deep_view() + (packages_of_lines(
                            lv.take(i as int),
                        ) + seq![m]) =~= pre.push(m));
                    }
                },
                Err(_) => {
                    proof {
                        assert(packages_of_lines(lv.take(i as int + 1)) =~= packages_of_lines(
                            lv.take(i as int),
                        ));
                    }
                },
            }
            i = i + 1;
        }
        proof {
            assert(lv.take(lv.len() as int) =~= lv);
        }
    }
}

} // verus!
