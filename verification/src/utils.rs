//! Counting helpers over a scanned configuration set.

use vstd::prelude::*;
use crate::portage_dir::PortageDirModel;
use crate::portage_file::PortageFileModel;
use crate::portage_listing::PortageListing;

verus! {

/// The number of declarations in a sequence of files.
pub open spec fn count_of_files(fs: Seq<PortageFileModel>) -> int
    decreases fs.len(),
{
    if fs.len() == 0 {
        0
    } else {
        count_of_files(fs.drop_last()) + fs.last().packages.len()
    }
}

/// The number of declarations in a sequence of trees.
pub open spec fn count_of_dirs(ds: Seq<PortageDirModel>) -> int
    decreases ds.len(),
{
    if ds.len() == 0 {
        0
    } else {
        count_of_dirs(ds.drop_last()) + count_of_files(ds.last().filelist)
    }
}

pub proof fn lemma_count_files_prefix(fs: Seq<PortageFileModel>, j: int)
    requires
        0 <= j <= fs.len(),
    ensures
        0 <= count_of_files(fs.take(j)) <= count_of_files(fs),
    decreases fs.len() - j,
{
    if j == fs.len() {
        assert(fs.take(j) =~= fs);
        lemma_count_files_nonneg(fs);
    } else {
        lemma_count_files_prefix(fs, j + 1);
        lemma_count_files_nonneg(fs.take(j));
        assert(fs.take(j + 1).drop_last() =~= fs.take(j));
        assert(fs.take(j + 1).last() == fs[j]);
        assert(count_of_files(fs.take(j + 1)) == count_of_files(fs.take(j))
            + fs[j].packages.len());
    }
}

pub proof fn lemma_count_files_nonneg(fs: Seq<PortageFileModel>)
    ensures
        0 <= count_of_files(fs),
    decreases fs.len(),
{
    if fs.len() > 0 {
        lemma_count_files_nonneg(fs.drop_last());
    }
}

pub proof fn lemma_count_dirs_prefix(ds: Seq<PortageDirModel>, i: int)
    requires
        0 <= i <= ds.len(),
    ensures
        0 <= count_of_dirs(ds.take(i)) <= count_of_dirs(ds),
    decreases ds.len() - i,
{
    if i == ds.len() {
        assert(ds.take(i) =~= ds);
        lemma_count_dirs_nonneg(ds);
    } else {
        lemma_count_dirs_prefix(ds, i + 1);
        lemma_count_dirs_nonneg(ds.take(i));
        assert(ds.take(i + 1).drop_last() =~= ds.take(i));
        assert(ds.take(i + 1).last() == ds[i]);
        lemma_count_files_nonneg(ds[i].filelist);
        assert(count_of_dirs(ds.take(i + 1)) == count_of_dirs(ds.take(i)) + count_of_files(
            ds[i].filelist,
        ));
    }
}

pub proof fn lemma_count_dirs_nonneg(ds: Seq<PortageDirModel>)
    ensures
        0 <= count_of_dirs(ds),
    decreases ds.len(),
{
    if ds.len() > 0 {
        lemma_count_dirs_nonneg(ds.drop_last());
        lemma_count_files_nonneg(ds.last().filelist);
    }
}

/// Counts every declaration of every file of every tree.  The bound in the
/// requires only keeps the machine count from overflowing.
pub fn count_packages_in_listing(listing: &PortageListing) -> (r: usize)
    requires
        count_of_dirs(listing@) <= usize::MAX,
    ensures
        r as int == count_of_dirs(listing@),
{
    let ghost dirs = listing@;
    let mut count: usize = 0;
    let mut i: usize = 0;
    proof {
        assert(dirs.take(0) =~= Seq::<PortageDirModel>::empty());
    }
    while i < listing.categories.len()
        invariant
            i <= listing.categories@.len(),
            dirs == listing@,
            dirs.len() == listing.categories@.len(),
            count_of_dirs(dirs) <= usize::MAX,
            count as int == count_of_dirs(dirs.take(i as int)),
        decreases listing.categories@.len() - i,
    {
        let dir = &listing.categories[i];
        let ghost files = dir@.filelist;
        let ghost base = count_of_dirs(dirs.take(i as int));
        let mut j: usize = 0;
        proof {
            assert(dir@ == dirs[i as int]);
            assert(files.take(0) =~= Seq::<PortageFileModel>::empty());
        }
        while j < dir.filelist.len()
            invariant
                j <= dir.filelist@.len(),
                dirs == listing@,
                i < dirs.len(),
                dir@ == dirs[i as int],
                files == dir@.filelist,
                files.len() == dir.filelist@.len(),
                count_of_dirs(dirs) <= usize::MAX,
                base == count_of_dirs(dirs.take(i as int)),
                count as int == base + count_of_files(files.take(j as int)),
            decreases dir.filelist@.len() - j,
        {
            let file = &dir.filelist[j];
            proof {
                assert(file@ == files[j as int]);
                assert(files.take(j as int + 1).drop_last() =~= files.take(j as int));
                assert(files.take(j as int + 1).last() == files[j as int]);
                lemma_count_files_prefix(files, j as int + 1);
                lemma_count_dirs_prefix(dirs, i as int + 1);
                assert(dirs.take(i as int + 1).drop_last() =~= dirs.take(i as int));
                assert(dirs.take(i as int + 1).last() == dirs[i as int]);
                assert(file@.packages.len() == file.packages@.len());
            }
            count = count + file.packages.len();
            j = j + 1;
        }
        proof {
            assert(files.take(files.len() as int) =~= files);
            assert(dirs.take(i as int + 1).drop_last() =~= dirs.take(i as int));
            assert(dirs.take(i as int + 1).last() == dirs[i as int]);
        }
        i = i + 1;
    }
    proof {
        assert(dirs.take(dirs.len() as int) =~= dirs);
    }
    count
}

} // verus!
