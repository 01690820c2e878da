//! The aggregation index: every declaration of every scanned file, keyed
//! by owning file path and qualified package name.
//!
//! The index holds at most one entry per key; a later declaration with the
//! same key silently replaces the earlier one.

use vstd::prelude::*;
use vstd::map::*;
use crate::categories::PackageCategory;
use crate::package::{Package, PackageModel};
use crate::portage_dir::PortageDirModel;
use crate::portage_file::PortageFileModel;
use crate::portage_listing::PortageListing;

verus! {

/// The key of one index entry: the owning file's path and the qualified
/// package name.
#[derive(Debug, Hash)]
pub struct PackageIdentifier {
    pub path: String,
    pub name: String,
}

impl PackageIdentifier {
    /// Builds a key from its parts, verbatim.
    pub fn new(path: String, name: String) -> (id: PackageIdentifier)
        ensures
            id.path == path,
            id.name == name,
    {
        PackageIdentifier { path, name }
    }

    /// The pair of character sequences this key denotes.
    pub open spec fn key(self) -> (Seq<char>, Seq<char>) {
        (self.path@, self.name@)
    }
}

impl PartialEq for PackageIdentifier {
    fn eq(&self, other: &PackageIdentifier) -> (r: bool) {
        self.path == other.path && self.name == other.name
    }
}

impl vstd::std_specs::cmp::PartialEqSpecImpl for PackageIdentifier {
    open spec fn obeys_eq_spec() -> bool {
        true
    }

    open spec fn eq_spec(&self, other: &PackageIdentifier) -> bool {
        self.path@ == other.path@ && self.name@ == other.name@
    }
}

/// The map an entry sequence denotes: entries are inserted in order, so a
/// later entry with the same key wins.
pub open spec fn entries_map(s: Seq<(PackageIdentifier, Package)>) -> Map<
    (Seq<char>, Seq<char>),
    PackageModel,
>
    decreases s.len(),
{
    if s.len() == 0 {
        Map::empty()
    } else {
        entries_map(s.drop_last()).insert(s.last().0.key(), s.last().1@)
    }
}

/// No two entries share a key.
pub open spec fn unique_keys(s: Seq<(PackageIdentifier, Package)>) -> bool {
    forall|a: int, b: int|
        0 <= a < b < s.len() ==> (#[trigger] s[a].0.key()) != (#[trigger] s[b].0.key())
}

pub proof fn lemma_entries_map_push(
    s: Seq<(PackageIdentifier, Package)>,
    x: (PackageIdentifier, Package),
)
    ensures
        entries_map(s.push(x)) == entries_map(s).insert(x.0.key(), x.1@),
{
    assert(s.push(x).drop_last() =~= s);
    assert(s.push(x).last() == x);
}

pub proof fn lemma_entries_map_update(
    s: Seq<(PackageIdentifier, Package)>,
    i: int,
    x: (PackageIdentifier, Package),
)
    requires
        0 <= i < s.len(),
        x.0.key() == s[i].0.key(),
        unique_keys(s),
    ensures
        entries_map(s.update(i, x)) == entries_map(s).insert(x.0.key(), x.1@),
    decreases s.len(),
{
    let t = s.drop_last();
    let k = x.0.key();
    if i == s.len() - 1 {
        assert(s.update(i, x).drop_last() =~= t);
        assert(s.update(i, x).last() == x);
        assert(entries_map(t).insert(k, x.1@) =~= entries_map(t).insert(
            s.last().0.key(),
            s.last().1@,
        ).insert(k, x.1@));
    } else {
        let tu = t.update(i, x);
        assert(s.update(i, x).drop_last() =~= tu);
        assert(s.update(i, x).last() == s.last());
        assert(forall|a: int| 0 <= a < t.len() ==> t[a] == s[a]);
        assert(unique_keys(t));
        lemma_entries_map_update(t, i, x);
        let lk = s.last().0.key();
        let lv = s.last().1@;
        assert(s.last() == s[s.len() - 1]);
        assert(k != lk);
        assert(entries_map(t).insert(k, x.1@).insert(lk, lv) =~= entries_map(t).insert(
            lk,
            lv,
        ).insert(k, x.1@));
    }
}

/// The qualified name of a declaration: its category's label (`unknown`
/// when it has none), a `/`, and its name.
pub open spec fn qualified_name(p: PackageModel) -> Seq<char> {
    (match p.category {
        Some(c) => c,
        None => PackageCategory::Unknown,
    }).label_seq() + "/"@ + p.name
}

/// One declaration of one file entered into the index.
pub open spec fn insert_package(
    m: Map<(Seq<char>, Seq<char>), PackageModel>,
    file_path: Seq<char>,
    p: PackageModel,
) -> Map<(Seq<char>, Seq<char>), PackageModel> {
    m.insert((file_path, qualified_name(p)), p)
}

/// A file's declarations entered in order; on equal keys the last wins.
pub open spec fn insert_packages(
    m: Map<(Seq<char>, Seq<char>), PackageModel>,
    file_path: Seq<char>,
    ps: Seq<PackageModel>,
) -> Map<(Seq<char>, Seq<char>), PackageModel>
    decreases ps.len(),
{
    if ps.len() == 0 {
        m
    } else {
        insert_package(insert_packages(m, file_path, ps.drop_last()), file_path, ps.last())
    }
}

/// One file's declarations entered into the index.
pub open spec fn insert_file(
    m: Map<(Seq<char>, Seq<char>), PackageModel>,
    f: PortageFileModel,
) -> Map<(Seq<char>, Seq<char>), PackageModel> {
    insert_packages(m, f.path, f.packages)
}

/// The files of one tree entered in order.
pub open spec fn insert_files(
    m: Map<(Seq<char>, Seq<char>), PackageModel>,
    fs: Seq<PortageFileModel>,
) -> Map<(Seq<char>, Seq<char>), PackageModel>
    decreases fs.len(),
{
    if fs.len() == 0 {
        m
    } else {
        insert_file(insert_files(m, fs.drop_last()), fs.last())
    }
}

/// The trees of a whole scan entered in order.
pub open spec fn insert_dirs(
    m: Map<(Seq<char>, Seq<char>), PackageModel>,
    ds: Seq<PortageDirModel>,
) -> Map<(Seq<char>, Seq<char>), PackageModel>
    decreases ds.len(),
{
    if ds.len() == 0 {
        m
    } else {
        insert_files(insert_dirs(m, ds.drop_last()), ds.last().filelist)
    }
}

/// The index a whole run denotes: the five trees of the configuration
/// snapshot, flattened into an empty index.
pub open spec fn index_of_config(cfg: crate::portage_listing::ConfigSnapshotModel) -> Map<
    (Seq<char>, Seq<char>),
    PackageModel,
> {
    insert_dirs(
        Map::<(Seq<char>, Seq<char>), PackageModel>::empty(),
        crate::portage_listing::trees_of_config(cfg),
    )
}

/// Running the full scan twice against an unchanged directory tree yields
/// index entries with identical content: the index is a function of the
/// snapshot alone, with nothing left to enumeration order or chance.
pub proof fn lemma_scan_idempotent(
    cfg1: crate::portage_listing::ConfigSnapshotModel,
    cfg2: crate::portage_listing::ConfigSnapshotModel,
)
    requires
        cfg1 == cfg2,
    ensures
        index_of_config(cfg1) == index_of_config(cfg2),
{
}

/// Two declarations of one file that map to the same qualified name leave
/// exactly one entry in the index: whichever was encountered last in
/// traversal order.
pub proof fn lemma_collision_last_wins(
    m: Map<(Seq<char>, Seq<char>), PackageModel>,
    file_path: Seq<char>,
    ps: Seq<PackageModel>,
    a: int,
    b: int,
)
    requires
        0 <= a < b < ps.len(),
        qualified_name(ps[a]) == qualified_name(ps[b]),
        forall|c: int|
            b < c < ps.len() ==> qualified_name(#[trigger] ps[c]) != qualified_name(ps[b]),
    ensures
        insert_packages(m, file_path, ps).dom().contains((file_path, qualified_name(ps[b]))),
        insert_packages(m, file_path, ps)[(file_path, qualified_name(ps[b]))] == ps[b],
    decreases ps.len(),
{
    if b == ps.len() - 1 {
        assert(ps.last() == ps[b]);
    } else {
        let t = ps.drop_last();
        assert(t[a] == ps[a] && t[b] == ps[b]);
        assert(forall|c: int| b < c < t.len() ==> #[trigger] t[c] == ps[c]);
        lemma_collision_last_wins(m, file_path, t, a, b);
        assert(qualified_name(ps[ps.len() - 1]) != qualified_name(ps[b]));
        assert(ps.last() == ps[ps.len() - 1]);
    }
}

/// The deduplicated lookup table of one scan run.
#[derive(Debug)]
pub struct PackageListing {
    pub packages: Vec<(PackageIdentifier, Package)>,
}

impl View for PackageListing {
    type V = Map<(Seq<char>, Seq<char>), PackageModel>;

    open spec fn view(&self) -> Map<(Seq<char>, Seq<char>), PackageModel> {
        entries_map(self.packages@)
    }
}

impl Default for PackageListing {
    /// An empty index.
    fn default() -> (r: Self)
        ensures
            r@ == Map::<(Seq<char>, Seq<char>), PackageModel>::empty(),
            r.wf(),
    {
        PackageListing { packages: Vec::new() }
    }
}

impl PackageListing {
    /// At most one entry per key.
    pub open spec fn wf(self) -> bool {
        unique_keys(self.packages@)
    }

    /// Enters one declaration, overwriting any earlier entry with the same
    /// key.
    pub fn insert(&mut self, id: PackageIdentifier, package: Package)
        requires
            old(self).wf(),
        ensures
            final(self).wf(),
            final(self)@ == old(self)@.insert(id.key(), package@),
    {
        let ghost s0 = self.packages@;
        let mut i: usize = 0;
        while i < self.packages.len()
            invariant
                i <= self.packages@.len(),
                self.packages@ == s0,
                s0 == old(self).packages@,
                unique_keys(s0),
                forall|a: int| 0 <= a < i ==> (#[trigger] s0[a].0.key()) != id.key(),
            decreases self.packages@.len() - i,
        {
            if self.packages[i].0 == id {
                proof {
                    assert(s0[i as int].0.key() == id.key());
                    lemma_entries_map_update(s0, i as int, (id, package));
                }
                self.packages.set(i, (id, package));
                proof {
                    assert forall|a: int, b: int|
                        0 <= a < b < self.packages@.len() implies (
                    #[trigger] self.packages@[a].0.key()) != (#[trigger] self.packages@[b].0.key())
                        by {
                        assert(s0[a].0.key() != s0[b].0.key());
                        if a == i {
                            assert(self.packages@[a].0.key() == s0[a].0.key());
                        }
                        if b == i {
                            assert(self.packages@[b].0.key() == s0[b].0.key());
                        }
                    }
                }
                return ;
            }
            i = i + 1;
        }
        proof {
            lemma_entries_map_push(s0, (id, package));
        }
        self.packages.push((id, package));
        proof {
            assert forall|a: int, b: int|
                0 <= a < b < self.packages@.len() implies (
            #[trigger] self.packages@[a].0.key()) != (#[trigger] self.packages@[b].0.key()) by {
                if b == self.packages@.len() - 1 {
                    assert(self.packages@[a] == s0[a]);
                    assert(s0[a].0.key() != id.key());
                } else {
                    assert(self.packages@[a] == s0[a] && self.packages@[b] == s0[b]);
                }
            }
        }
    }

    /// Flattens every declaration of every file of every tree into the
    /// index, in encounter order; on equal keys the declaration seen last
    /// wins.
    pub fn scan_portage_listing(&mut self, portage_listing: &PortageListing)
        requires
            old(self).wf(),
        ensures
            final(self).wf(),
            final(self)@ == insert_dirs(old(self)@, portage_listing@),
    {
        let ghost m0 = self@;
        let ghost dirs = portage_listing@;
        let mut i: usize = 0;
        proof {
            assert(dirs.take(0) =~= Seq::<PortageDirModel>::empty());
        }
        while i < portage_listing.categories.len()
            invariant
                i <= portage_listing.categories@.len(),
                dirs == portage_listing@,
                dirs.len() == portage_listing.categories@.len(),
                self.wf(),
                m0 == old(self)@,
                self@ == insert_dirs(m0, dirs.take(i as int)),
            decreases portage_listing.categories@.len() - i,
        {
            let dir = &portage_listing.categories[i];
            let ghost files = dir@.filelist;
            let ghost mi = insert_dirs(m0, dirs.take(i as int));
            let mut j: usize = 0;
            proof {
                assert(dir@ == dirs[i as int]);
                assert(files.take(0) =~= Seq::<PortageFileModel>::empty());
            }
            while j < dir.filelist.len()
                invariant
                    j <= dir.filelist@.len(),
                    files == dir@.filelist,
                    files.len() == dir.filelist@.len(),
                    self.wf(),
                    self@ == insert_files(mi, files.take(j as int)),
                decreases dir.filelist@.len() - j,
            {
                let file = &dir.filelist[j];
                let ghost pkgs = file@.packages;
                let ghost mj = insert_files(mi, files.take(j as int));
                let mut k: usize = 0;
                proof {
                    assert(file@ == files[j as int]);
                    assert(pkgs.take(0) =~= Seq::<PackageModel>::empty());
                }
                while k < file.packages.len()
                    invariant
                        k <= file.packages@.len(),
                        pkgs == file@.packages,
                        pkgs.len() == file.packages@.len(),
                        file@ == files[j as int],
                        self.wf(),
                        self@ == insert_packages(mj, file@.path, pkgs.take(k as int)),
                    decreases file.packages@.len() - k,
                {
                    let package = &file.packages[k];
                    let category = match package.category {
                        Some(c) => c,
                        None => PackageCategory::Unknown,
                    };
                    let mut full_name = category.label();
                    full_name.append("/");
                    full_name.append(package.name.as_str());
                    let id = PackageIdentifier::new(file.path.clone(), full_name);
                    let entry = package.clone();
                    proof {
                        assert(package@ == pkgs[k as int]);
                        assert(id.key() == (file@.path, qualified_name(pkgs[k as int])));
                        assert(pkgs.take(k as int + 1).drop_last() =~= pkgs.take(k as int));
                        assert(pkgs.take(k as int + 1).last() == pkgs[k as int]);
                    }
                    self.insert(id, entry);
                    k = k + 1;
                }
                proof {
                    assert(pkgs.take(pkgs.len() as int) =~= pkgs);
                    assert(files.take(j as int + 1).drop_last() =~= files.take(j as int));
                    assert(files.take(j as int + 1).last() == files[j as int]);
                }
                j = j + 1;
            }
            proof {
                assert(files.take(files.len() as int) =~= files);
                assert(dirs.take(i as int + 1).drop_last() =~= dirs.take(i as int));
                assert(dirs.take(i as int + 1).last() == dirs[i as int]);
            }
            i = i + 1;
        }
        proof {
            assert(dirs.take(dirs.len() as int) =~= dirs);
        }
    }
}

} // verus!
