use consign::dirscan::{scan_dir, DirSnapshot, FsEntry, ScanFilter};
use consign::error::ConsignError;
use consign::package_listing::PackageListing;
use consign::portage_file::PortageFile;
use consign::portage_listing::{ConfigSnapshot, PortageListing};
use consign::utils::count_packages_in_listing;

fn file_entry(path: &str, lines: &[&str]) -> FsEntry {
    FsEntry {
        path: path.to_string(),
        is_dir: false,
        lines: Some(lines.iter().map(|l| l.to_string()).collect()),
    }
}

fn unreadable_file_entry(path: &str) -> FsEntry {
    FsEntry { path: path.to_string(), is_dir: false, lines: None }
}

fn dir_entry(path: &str) -> FsEntry {
    FsEntry { path: path.to_string(), is_dir: true, lines: None }
}

fn config(
    package_use: DirSnapshot,
    package_mask: DirSnapshot,
    package_unmask: DirSnapshot,
    package_keywords: DirSnapshot,
    package_license: DirSnapshot,
) -> ConfigSnapshot {
    ConfigSnapshot {
        parent_exists: true,
        package_use,
        package_mask,
        package_unmask,
        package_keywords,
        package_license,
    }
}

#[test]
fn test_scan_dir_files_only() {
    let listing = DirSnapshot::Listed(vec![
        file_entry("file1", &[]),
        file_entry("file2", &[]),
        file_entry("file3", &[]),
        dir_entry("dir1"),
    ]);
    let files = scan_dir(&listing, ScanFilter::FilesOnly).unwrap();
    assert!(files.len() == 3);
    assert_eq!(files, vec!["file1", "file2", "file3"]);
}

#[test]
fn test_scan_dir_dir_only() {
    let listing = DirSnapshot::Listed(vec![
        file_entry("file1", &[]),
        dir_entry("dir1"),
        dir_entry("dir2"),
        dir_entry("dir3"),
    ]);
    let dirs = scan_dir(&listing, ScanFilter::DirectoriesOnly).unwrap();
    assert!(dirs.len() == 3);
    assert_eq!(dirs, vec!["dir1", "dir2", "dir3"]);
}

#[test]
fn test_scan_dir_all() {
    let listing = DirSnapshot::Listed(vec![
        file_entry("file1", &[]),
        file_entry("file2", &[]),
        file_entry("file3", &[]),
        dir_entry("dir1"),
        dir_entry("dir2"),
        dir_entry("dir3"),
    ]);
    let all = scan_dir(&listing, ScanFilter::All).unwrap();
    assert!(all.len() == 6);
    assert_eq!(all, vec!["file1", "file2", "file3", "dir1", "dir2", "dir3"]);
}

#[test]
fn scan_dir_rejects_non_directory() {
    match scan_dir(&DirSnapshot::NotADirectory, ScanFilter::FilesOnly) {
        Err(ConsignError::GeneralFailure(m)) => assert_eq!(m, "Path is not a directory"),
        _ => panic!("expected a general failure"),
    }
}

#[test]
fn scan_dir_reports_unreadable_listing() {
    match scan_dir(&DirSnapshot::Unreadable("permission denied".to_string()), ScanFilter::All) {
        Err(ConsignError::IoError(m)) => assert_eq!(m, "permission denied"),
        _ => panic!("expected an io error"),
    }
}

#[test]
fn portage_file_keeps_good_lines_and_drops_bad_ones() {
    let mut file = PortageFile::new("x11-base".to_string());
    let lines = vec![
        "# keep x11 in shape".to_string(),
        "x11-base/xorg-server udev".to_string(),
        "".to_string(),
        "dev-lang/rust-bin doc".to_string(),
    ];
    file.scan_file_for_packages(&lines);
    assert_eq!(file.path, "x11-base");
    assert_eq!(file.packages.len(), 2);
    assert_eq!(file.packages[0].name, "xorg-server");
    assert_eq!(file.packages[1].name, "rust-bin");
}

#[test]
fn scan_dir_path_skips_subdirectories_and_unreadable_files() {
    let mut listing = PortageListing::default();
    let root = DirSnapshot::Listed(vec![
        file_entry("/etc/portage/package.use/x11", &["x11-base/xorg-server udev"]),
        dir_entry("/etc/portage/package.use/nested"),
        unreadable_file_entry("/etc/portage/package.use/locked"),
        file_entry("/etc/portage/package.use/lang", &["dev-lang/rust-bin doc"]),
    ]);
    listing.scan_dir_path("/etc/portage/package.use", &root).unwrap();
    assert_eq!(listing.categories.len(), 1);
    let tree = &listing.categories[0];
    assert_eq!(tree.dirname, "package.use");
    assert_eq!(tree.filelist.len(), 2);
    assert_eq!(tree.filelist[0].path, "/etc/portage/package.use/x11");
    assert_eq!(tree.filelist[1].path, "/etc/portage/package.use/lang");
}

#[test]
fn scan_dir_path_rejects_path_without_file_name() {
    let mut listing = PortageListing::default();
    let root = DirSnapshot::Listed(Vec::new());
    match listing.scan_dir_path("/etc/portage/", &root) {
        Err(ConsignError::GeneralFailure(m)) => assert_eq!(m, "Path has no file name"),
        _ => panic!("expected a general failure"),
    }
    assert!(listing.categories.is_empty());
}

#[test]
fn scan_default_tolerates_one_missing_root() {
    let mut listing = PortageListing::default();
    let cfg = config(
        DirSnapshot::Listed(Vec::new()),
        DirSnapshot::NotADirectory,
        DirSnapshot::Listed(Vec::new()),
        DirSnapshot::Listed(Vec::new()),
        DirSnapshot::Listed(Vec::new()),
    );
    listing.scan_default_dir_path(&cfg).unwrap();
    assert_eq!(listing.categories.len(), 4);
    assert_eq!(listing.categories[0].dirname, "package.use");
    assert_eq!(listing.categories[1].dirname, "package.unmask");
    assert_eq!(listing.categories[2].dirname, "package.keywords");
    assert_eq!(listing.categories[3].dirname, "package.license");
}

#[test]
fn scan_default_fails_when_all_roots_missing() {
    let mut listing = PortageListing::default();
    let cfg = config(
        DirSnapshot::NotADirectory,
        DirSnapshot::NotADirectory,
        DirSnapshot::NotADirectory,
        DirSnapshot::NotADirectory,
        DirSnapshot::NotADirectory,
    );
    match listing.scan_default_dir_path(&cfg) {
        Err(ConsignError::DirNotFound(m)) => {
            assert_eq!(m, "No portage configuration root could be scanned")
        },
        _ => panic!("expected a not-found failure"),
    }
    assert!(listing.categories.is_empty());
}

#[test]
fn scan_default_fails_when_parent_is_missing() {
    let mut listing = PortageListing::default();
    let mut cfg = config(
        DirSnapshot::Listed(Vec::new()),
        DirSnapshot::Listed(Vec::new()),
        DirSnapshot::Listed(Vec::new()),
        DirSnapshot::Listed(Vec::new()),
        DirSnapshot::Listed(Vec::new()),
    );
    cfg.parent_exists = false;
    match listing.scan_default_dir_path(&cfg) {
        Err(ConsignError::DirNotFound(m)) => assert_eq!(m, "/etc/portage"),
        _ => panic!("expected a not-found failure"),
    }
    assert!(listing.categories.is_empty());
}

fn sample_config() -> ConfigSnapshot {
    config(
        DirSnapshot::Listed(vec![
            file_entry(
                "/etc/portage/package.use/lang",
                &["dev-lang/rust-bin doc -icu", "# a comment", "rust-bin"],
            ),
            file_entry("/etc/portage/package.use/x11", &["x11-base/xorg-server udev"]),
        ]),
        DirSnapshot::Listed(vec![file_entry(
            "/etc/portage/package.mask/gfx",
            &["media-gfx/exiv2-0.25-r2"],
        )]),
        DirSnapshot::NotADirectory,
        DirSnapshot::NotADirectory,
        DirSnapshot::NotADirectory,
    )
}

fn scan_once(cfg: &ConfigSnapshot) -> PackageListing {
    let mut portage_listing = PortageListing::default();
    portage_listing.scan_default_dir_path(cfg).unwrap();
    let mut package_listing = PackageListing::default();
    package_listing.scan_portage_listing(&portage_listing);
    package_listing
}

fn entry_triples(listing: &PackageListing) -> Vec<(String, String, String)> {
    let mut triples: Vec<(String, String, String)> = listing
        .packages
        .iter()
        .map(|(id, p)| (id.path.clone(), id.name.clone(), p.name.clone()))
        .collect();
    triples.sort();
    triples
}

#[test]
fn full_scan_aggregates_every_declaration() {
    let cfg = sample_config();
    let index = scan_once(&cfg);
    let triples = entry_triples(&index);
    assert_eq!(
        triples,
        vec![
            (
                "/etc/portage/package.mask/gfx".to_string(),
                "media-gfx/exiv2-0.25-r2".to_string(),
                "exiv2-0.25-r2".to_string()
            ),
            (
                "/etc/portage/package.use/lang".to_string(),
                "dev-lang/rust-bin".to_string(),
                "rust-bin".to_string()
            ),
            (
                "/etc/portage/package.use/lang".to_string(),
                "unknown/rust-bin".to_string(),
                "rust-bin".to_string()
            ),
            (
                "/etc/portage/package.use/x11".to_string(),
                "x11-base/xorg-server".to_string(),
                "xorg-server".to_string()
            ),
        ]
    );
}

#[test]
fn scanning_twice_yields_identical_content() {
    let cfg = sample_config();
    let first = scan_once(&cfg);
    let second = scan_once(&cfg);
    assert_eq!(entry_triples(&first), entry_triples(&second));
}

#[test]
fn colliding_declarations_keep_the_last_one() {
    let cfg = config(
        DirSnapshot::Listed(vec![file_entry(
            "/etc/portage/package.use/lang",
            &["dev-lang/rust-bin first", "dev-lang/rust-bin second"],
        )]),
        DirSnapshot::NotADirectory,
        DirSnapshot::NotADirectory,
        DirSnapshot::NotADirectory,
        DirSnapshot::NotADirectory,
    );
    let index = scan_once(&cfg);
    assert_eq!(index.packages.len(), 1);
    let (id, package) = &index.packages[0];
    assert_eq!(id.name, "dev-lang/rust-bin");
    assert_eq!(package.available_flags, vec!["second"]);
}

#[test]
fn count_packages_counts_across_trees_and_files() {
    let cfg = sample_config();
    let mut portage_listing = PortageListing::default();
    portage_listing.scan_default_dir_path(&cfg).unwrap();
    assert_eq!(count_packages_in_listing(&portage_listing), 4);
}
