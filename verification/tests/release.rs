use use_rust::cargo::{CargoManifest, ManifestPath};
use use_rust::identity::CrateMetadata;
use use_rust::release::{ReleaseCheck, ReleasePlan, ReleaseReport, ReleaseStatus};
use use_rust::version::{parse_version, ReleaseLevel, VersionBump};

fn manifest(path: &str, contents: &str) -> CargoManifest {
    CargoManifest::from_text(ManifestPath::from_utf8(String::from(path)), contents)
        .expect("manifest should parse")
}

#[test]
fn reports_ready_workspace_member() {
    // A workspace member with README.md, src/lib.rs, and license files in the
    // workspace root.
    let manifest = manifest(
        "release-ready/crates/use-demo/Cargo.toml",
        r#"[package]
name = "use-demo"
version = "0.1.0"
edition = "2021"
description = "demo"
license = "MIT OR Apache-2.0"
repository = "https://github.com/RustUse/use-demo"
documentation = "https://docs.rs/use-demo"
homepage = "https://rustuse.org"
readme = "README.md"
"#,
    );
    let metadata = CrateMetadata::from_manifest_document(manifest.document(), true, false);

    let report = ReleaseReport::from_inspection(true, true, Some(&manifest), metadata);

    assert!(report.is_ready());
    assert_eq!(report.status(), ReleaseStatus::Ready);
    assert!(report.issues().is_empty());
}

#[test]
fn reports_release_issues_for_missing_metadata() {
    // A lone package without README.md or license files.
    let manifest = manifest(
        "release-issues/Cargo.toml",
        r#"[package]
name = "Bad crate"
version = "banana"
edition = "2021"
"#,
    );
    let metadata = CrateMetadata::from_manifest_document(manifest.document(), false, false);

    let report = ReleaseReport::from_inspection(false, false, Some(&manifest), metadata);

    assert!(!report.is_ready());
    assert!(report.issues().len() >= 6);
}

#[test]
fn creates_release_plans() {
    let current = parse_version("0.1.0").expect("version should parse");
    let plan = ReleasePlan::from_bump("use-demo", current, VersionBump::Minor);

    assert_eq!(plan.package_name, "use-demo");
    assert_eq!(plan.next_version.to_string(), "0.2.0");
}

#[test]
fn lists_every_issue_in_order() {
    let manifest = manifest(
        "issues/Cargo.toml",
        r#"[package]
name = "Bad crate"
version = "banana"
repository = "https://example.org/repo"
publish = false
"#,
    );
    let metadata = CrateMetadata::from_manifest_document(manifest.document(), false, false);
    let report = ReleaseReport::from_inspection(false, false, Some(&manifest), metadata);
    let issues: Vec<(ReleaseCheck, &str)> =
        report.issues().iter().map(|i| (i.check, i.message.as_str())).collect();
    assert_eq!(
        issues,
        vec![
            (ReleaseCheck::ReadmeExists, "README.md is missing"),
            (
                ReleaseCheck::LicenseFilesExist,
                "license files are missing from the package or workspace root"
            ),
            (ReleaseCheck::DescriptionPresent, "package.description is missing"),
            (ReleaseCheck::LicensePresent, "package.license is missing"),
            (ReleaseCheck::DocumentationPresent, "package.documentation is missing"),
            (ReleaseCheck::HomepagePresent, "package.homepage is missing"),
            (
                ReleaseCheck::Publishable,
                "package is not publishable under current Cargo metadata"
            ),
            (
                ReleaseCheck::VersionValid,
                "package.version is not valid semantic versioning"
            ),
            (ReleaseCheck::CrateNameValid, "package.name is not a valid crate name"),
            (
                ReleaseCheck::RustUseNaming,
                "package.name does not follow the RustUse use-* naming convention"
            ),
            (
                ReleaseCheck::RustUseNaming,
                "package.repository should be https://github.com/RustUse/bad-crate"
            ),
            (
                ReleaseCheck::RustUseNaming,
                "crate name does not follow the RustUse use-* naming convention"
            ),
            (
                ReleaseCheck::RustUseNaming,
                "repository URL should be https://github.com/RustUse/bad-crate"
            ),
        ]
    );
    assert_eq!(report.package_name(), Some("Bad crate"));
    assert_eq!(report.status(), ReleaseStatus::HasIssues);
}

#[test]
fn reports_a_missing_manifest() {
    let report = ReleaseReport::from_inspection(true, true, None, None);
    assert_eq!(report.package_name(), None);
    assert_eq!(report.issues().len(), 1);
    assert_eq!(report.issues()[0].check, ReleaseCheck::CargoTomlExists);
    assert_eq!(report.issues()[0].message, "Cargo.toml is missing");
}

#[test]
fn reports_missing_name_and_version() {
    let manifest = manifest("empty/Cargo.toml", "[package]\n");
    let report = ReleaseReport::from_inspection(true, true, Some(&manifest), None);
    let checks: Vec<ReleaseCheck> = report.issues().iter().map(|i| i.check).collect();
    assert_eq!(
        checks[checks.len() - 2..].to_vec(),
        vec![ReleaseCheck::VersionValid, ReleaseCheck::CrateNameValid]
    );
    assert_eq!(report.issues()[report.issues().len() - 1].message, "package.name is missing");
    assert_eq!(report.issues()[report.issues().len() - 2].message, "package.version is missing");
}

#[test]
fn plans_every_bump_level() {
    let current = parse_version("1.2.3-rc.1").expect("parses");
    let patch = ReleasePlan::from_bump("use-x", current.clone(), VersionBump::Patch);
    assert_eq!(patch.next_version.to_string(), "1.2.4");
    assert_eq!(patch.level, ReleaseLevel::Patch);
    assert_eq!(patch.current_version.to_string(), "1.2.3-rc.1");
    let major = ReleasePlan::from_bump("use-x", current, VersionBump::Major);
    assert_eq!(major.next_version.to_string(), "2.0.0");
    assert_eq!(major.level, ReleaseLevel::Major);
}

#[test]
fn raises_each_manifest_check_at_most_once() {
    let manifest = manifest(
        "counts/Cargo.toml",
        "[package]\nname = \"use-x\"\nversion = \"1.0.0\"\nhomepage = \"https://example.org\"\n",
    );
    let report = ReleaseReport::from_inspection(true, true, Some(&manifest), None);
    let count = |check: ReleaseCheck| report.issues().iter().filter(|i| i.check == check).count();
    assert_eq!(count(ReleaseCheck::DescriptionPresent), 1);
    assert_eq!(count(ReleaseCheck::LicensePresent), 1);
    assert_eq!(count(ReleaseCheck::RepositoryPresent), 1);
    assert_eq!(count(ReleaseCheck::DocumentationPresent), 1);
    assert_eq!(count(ReleaseCheck::HomepagePresent), 0);
    assert_eq!(count(ReleaseCheck::Publishable), 0);
    assert_eq!(count(ReleaseCheck::VersionValid), 0);
    assert_eq!(count(ReleaseCheck::CrateNameValid), 0);
    assert_eq!(count(ReleaseCheck::RustUseNaming), 1);
    assert_eq!(count(ReleaseCheck::CargoTomlExists), 0);
}
