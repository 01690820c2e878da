use consign::categories::PackageCategory;
use consign::error::ConsignError;
use consign::package::Package;

#[test]
fn package_try_from_line_basic() {
    let line = "dev-lang/rust-bin rust-analyzer rust-src verify-sig rustfmt doc -icu";
    let package = Package::try_from_line(line).unwrap();

    assert_eq!(package.category, Some(PackageCategory::DevLang));
    assert_eq!(package.name, "rust-bin");
    assert!(package.version.is_none());
    assert_eq!(
        package.available_flags,
        vec!["rust-analyzer", "rust-src", "verify-sig", "rustfmt", "doc", "-icu"]
    );
}

#[test]
fn package_try_from_line_comment() {
    let line = "# dev-lang/rust-bin rust-analyzer rust-src verify-sig rustfmt doc -icu";
    let package = Package::try_from_line(line);
    assert!(package.is_err());
}

#[test]
fn package_try_from_line_short() {
    let line = "dev-lang/rust-bin";
    let package = Package::try_from_line(line).unwrap();
    assert_eq!(package.category, Some(PackageCategory::DevLang));
    assert_eq!(package.name, "rust-bin");
}

#[test]
fn package_name_without_category() {
    let line = "rust-bin";
    let (category, name) = Package::maybe_category_from_line(line);
    assert_eq!(category, None);
    assert_eq!(name, "rust-bin");
}

#[test]
fn package_version_parsing_complex() {
    let line = "media-gfx/exiv2-0.25-r2";
    let version = Package::maybe_version_from_line(line).unwrap();
    assert_eq!(version, "0.25-r2");
}

#[test]
fn package_version_parsing_simple() {
    let line = "exiv2-0.25-r2";
    let version = Package::maybe_version_from_line(line).unwrap();
    assert_eq!(version, "0.25-r2");
}

#[test]
fn package_empty_line_is_error() {
    assert!(Package::try_from_line("").is_err());
    assert!(Package::try_from_line("   \t  ").is_err());
}

#[test]
fn package_empty_line_error_is_general_failure() {
    match Package::try_from_line("") {
        Err(ConsignError::GeneralFailure(m)) => assert_eq!(m, "Invalid package line"),
        _ => panic!("expected a general failure"),
    }
    match Package::try_from_line("# a comment") {
        Err(ConsignError::GeneralFailure(m)) => assert_eq!(m, "Comment line"),
        _ => panic!("expected a general failure"),
    }
}

#[test]
fn package_unknown_category_falls_back() {
    let package = Package::try_from_line("strange-cat/foo").unwrap();
    assert_eq!(package.category, Some(PackageCategory::Unknown));
    assert_eq!(package.name, "foo");
}

#[test]
fn package_empty_name_side_keeps_whole_subject() {
    let (category, name) = Package::maybe_category_from_line("dev-lang/");
    assert_eq!(category, None);
    assert_eq!(name, "dev-lang/");
}

#[test]
fn package_version_trailing_hyphen_is_none() {
    assert!(Package::maybe_version_from_line("rust-bin-").is_none());
    assert!(Package::maybe_version_from_line("rust").is_none());
    assert!(Package::maybe_version_from_line("").is_none());
}

#[test]
fn package_version_double_hyphen() {
    let version = Package::maybe_version_from_line("a--2").unwrap();
    assert_eq!(version, "2");
}

#[test]
fn package_version_keeps_internal_hyphens() {
    let version = Package::maybe_version_from_line("pkg-1.2-r3-extra").unwrap();
    assert_eq!(version, "1.2-r3-extra");
}

#[test]
fn package_category_version_and_flags_together() {
    let package = Package::try_from_line("media-gfx/exiv2-0.25-r2 jpeg -webp").unwrap();
    assert_eq!(package.category, Some(PackageCategory::MediaGfx));
    assert_eq!(package.name, "exiv2-0.25-r2");
    assert_eq!(package.version.as_deref(), Some("0.25-r2"));
    assert_eq!(package.available_flags, vec!["jpeg", "-webp"]);
    assert!(package.enabled_flags.is_empty());
    assert!(package.disabled_flags.is_empty());
}

#[test]
fn category_labels_round_trip() {
    let c = PackageCategory::from_label("dev-lang");
    assert_eq!(c, PackageCategory::DevLang);
    assert_eq!(c.label(), "dev-lang");
    let u = PackageCategory::from_label("not-a-category");
    assert_eq!(u, PackageCategory::Unknown);
    assert_eq!(u.label(), "unknown");
}
