use std::path::PathBuf;

use use_rust::cargo::{CargoManifest, CargoManifestError, CargoWorkspaceError, ManifestPath};
use use_rust::identity::CrateName;
use use_rust::release::ReleaseError;
use use_rust::version::parse_version;

#[test]
fn describes_version_errors() {
    let error = parse_version("not-a-version").expect_err("letters are rejected");
    let message = error.to_string();
    assert!(message.starts_with("failed to parse semantic version: "), "{message}");
    assert!(message.len() > "failed to parse semantic version: ".len());
    let wrapped = ReleaseError::from(error).to_string();
    assert!(
        wrapped.starts_with(
            "failed to inspect version metadata: failed to parse semantic version: "
        ),
        "{wrapped}"
    );
}

#[test]
fn describes_manifest_errors() {
    let missing = CargoManifestError::NotFound(PathBuf::from("/nowhere/Cargo.toml"));
    assert_eq!(missing.to_string(), "no Cargo.toml found at /nowhere/Cargo.toml");
    let not_utf8 = CargoManifestError::NonUtf8Path(PathBuf::from("/odd"));
    assert_eq!(not_utf8.to_string(), "path is not valid UTF-8: /odd");

    let parse_error = CargoManifest::from_text(
        ManifestPath::from_utf8(String::from("bad/Cargo.toml")),
        "[package\n",
    )
    .expect_err("the text is not TOML");
    let message = parse_error.to_string();
    assert!(message.starts_with("failed to parse Cargo manifest: "), "{message}");

    let io = CargoManifestError::Io(std::io::Error::new(std::io::ErrorKind::Other, "disk gone"));
    assert_eq!(io.to_string(), "failed to read Cargo manifest: disk gone");
    assert_eq!(
        ReleaseError::from(io).to_string(),
        "failed to inspect Cargo manifest: failed to read Cargo manifest: disk gone"
    );
}

#[test]
fn describes_workspace_errors() {
    let missing = CargoWorkspaceError::from(CargoManifestError::NotFound(PathBuf::from("/w")));
    assert!(matches!(missing, CargoWorkspaceError::NotFound(_)));
    assert_eq!(missing.to_string(), "no workspace root found from /w");

    let io = CargoManifestError::Io(std::io::Error::new(std::io::ErrorKind::Other, "denied"));
    let wrapped = CargoWorkspaceError::from(io);
    assert!(matches!(wrapped, CargoWorkspaceError::Manifest(CargoManifestError::Io(_))));
    assert_eq!(
        wrapped.to_string(),
        "failed to inspect manifest: failed to read Cargo manifest: denied"
    );
    let not_utf8 = CargoWorkspaceError::NonUtf8Path(PathBuf::from("/odd"));
    assert_eq!(not_utf8.to_string(), "path is not valid UTF-8: /odd");
}

#[test]
fn describes_crate_name_errors() {
    let error = CrateName::new("Bad crate!").expect_err("the name is invalid");
    assert_eq!(error.to_string(), "invalid crate name: Bad crate!");
}

#[test]
fn error_messages_carry_the_outside_message_whole() {
    let semver_error = semver::Version::parse("1.q.r").expect_err("rejected");
    let error = parse_version("1.q.r").expect_err("rejected");
    assert_eq!(error.to_string(), format!("failed to parse semantic version: {semver_error}"));
    assert_eq!(
        ReleaseError::from(error).to_string(),
        format!("failed to inspect version metadata: failed to parse semantic version: {semver_error}")
    );

    let toml_error = "[package\n".parse::<toml_edit::DocumentMut>().expect_err("not TOML");
    let manifest_error = CargoManifest::from_text(
        ManifestPath::from_utf8(String::from("bad/Cargo.toml")),
        "[package\n",
    )
    .expect_err("not TOML");
    assert_eq!(manifest_error.to_string(), format!("failed to parse Cargo manifest: {toml_error}"));
    assert_eq!(
        CargoWorkspaceError::from(manifest_error).to_string(),
        format!("failed to inspect manifest: failed to parse Cargo manifest: {toml_error}")
    );
}
