use use_rust::cargo::{CargoManifest, ManifestPath};
use use_rust::identity::{
    expected_docs_url, expected_repository_url, is_publishable, validate_crate_metadata, CrateKind,
    CrateMetadata, CrateName, PublishStatus, RepositoryUrl,
};
use use_rust::naming::{
    crate_name_to_module_name, is_use_prefixed, is_valid_crate_name, module_name_to_crate_name,
    normalize_crate_name,
};

#[test]
fn validates_crate_names_and_prefixes() {
    assert!(is_valid_crate_name("use-rust-release"));
    assert!(is_valid_crate_name("use_rust_release"));
    assert!(!is_valid_crate_name("Use-Rust-Release"));
    assert!(!is_valid_crate_name("use release"));
    assert!(is_use_prefixed("use-rust-release"));
    assert!(!is_use_prefixed("release-tools"));
}

#[test]
fn converts_and_normalizes_names() {
    assert_eq!(
        crate_name_to_module_name("use-rust-release"),
        "use_rust_release"
    );
    assert_eq!(
        module_name_to_crate_name("use_rust_release"),
        "use-rust-release"
    );
    assert_eq!(
        normalize_crate_name(" Use Rust Release_tools "),
        "use-rust-release-tools"
    );
}

#[test]
fn builds_expected_urls() {
    assert_eq!(
        expected_repository_url("use-rust-release").as_str(),
        "https://github.com/RustUse/use-rust-release"
    );
    assert_eq!(
        expected_docs_url("use-rust-release").as_str(),
        "https://docs.rs/use-rust-release"
    );
}

#[test]
fn validates_metadata_defaults() {
    let metadata = CrateMetadata {
        name: CrateName::new("use-rust-release").expect("crate name should validate"),
        kind: CrateKind::Library,
        description: Some(String::from("release checks")),
        license: Some(String::from("MIT OR Apache-2.0")),
        repository: Some(expected_repository_url("use-rust-release")),
        documentation: Some(expected_docs_url("use-rust-release")),
        homepage: Some(String::from("https://rustuse.org")),
        publish_status: PublishStatus::Publishable,
    };

    assert!(validate_crate_metadata(&metadata).is_empty());
    assert!(is_publishable(&metadata));
}

#[test]
fn builds_metadata_from_manifest_path() {
    let contents = r#"[package]
    name = "use-rust-release"
version = "0.0.1"
edition = "2024"
description = "release checks"
license = "MIT OR Apache-2.0"
    repository = "https://github.com/RustUse/use-rust-release"
    documentation = "https://docs.rs/use-rust-release"
homepage = "https://rustuse.org"
"#;
    let manifest = CargoManifest::from_text(
        ManifestPath::from_utf8(String::from("crate-manifest/Cargo.toml")),
        contents,
    )
    .expect("manifest should parse");

    // The crate root holds `src/lib.rs` and no `src/main.rs`.
    let metadata = CrateMetadata::from_manifest_document(manifest.document(), true, false)
        .expect("metadata should load");

    assert_eq!(metadata.name.as_str(), "use-rust-release");
    assert_eq!(metadata.kind, CrateKind::Library);
}

#[test]
fn normalizes_edges_and_runs_of_separators() {
    assert_eq!(normalize_crate_name("__Foo__Bar--"), "foo-bar");
    assert_eq!(normalize_crate_name("  \t "), "");
    assert_eq!(normalize_crate_name("A  B"), "a-b");
    assert_eq!(normalize_crate_name("ÄBC"), "Äbc");
}

#[test]
fn crate_name_is_normalized_and_validated() {
    let name = CrateName::new(" Use_Demo ").expect("normalized name is valid");
    assert_eq!(name.as_str(), "use-demo");
    assert_eq!(name.to_string(), "use-demo");
    let error = CrateName::new("bad name!").expect_err("punctuation is refused");
    assert_eq!(error.to_string(), "invalid crate name: bad name!");
    assert!(CrateName::new("   ").is_err());
}

#[test]
fn rejects_names_with_bad_edges_or_characters() {
    assert!(!is_valid_crate_name(""));
    assert!(!is_valid_crate_name("-demo"));
    assert!(!is_valid_crate_name("demo_"));
    assert!(!is_valid_crate_name("démo"));
    assert!(is_valid_crate_name("a1_b-2"));
    assert!(!is_use_prefixed("use"));
    assert!(!is_use_prefixed("use_demo"));
}

#[test]
fn module_and_crate_names_round_trip() {
    let module = crate_name_to_module_name("use-rust-cargo");
    assert_eq!(module_name_to_crate_name(&module), "use-rust-cargo");
    let krate = module_name_to_crate_name("use_rust_cargo");
    assert_eq!(crate_name_to_module_name(&krate), "use_rust_cargo");
}

#[test]
fn reports_each_metadata_issue() {
    let metadata = CrateMetadata {
        name: CrateName::new("release-tools").expect("valid"),
        kind: CrateKind::Binary,
        description: None,
        license: None,
        repository: Some(expected_repository_url("other")),
        documentation: Some(expected_docs_url("other")),
        homepage: Some(String::from("https://example.org")),
        publish_status: PublishStatus::Publishable,
    };
    let issues = validate_crate_metadata(&metadata);
    assert_eq!(
        issues,
        vec![
            String::from("crate name does not follow the RustUse use-* naming convention"),
            String::from("repository URL should be https://github.com/RustUse/release-tools"),
            String::from("documentation URL should be https://docs.rs/release-tools"),
            String::from("homepage should be https://rustuse.org for RustUse crates"),
        ]
    );
    assert!(!is_publishable(&metadata));
}

#[test]
fn unpublishable_metadata_is_not_publishable() {
    let metadata = CrateMetadata {
        name: CrateName::new("use-demo").expect("valid"),
        kind: CrateKind::Library,
        description: None,
        license: None,
        repository: None,
        documentation: None,
        homepage: None,
        publish_status: PublishStatus::Unpublishable,
    };
    assert!(validate_crate_metadata(&metadata).is_empty());
    assert!(!is_publishable(&metadata));
}

#[test]
fn expected_urls_normalize_their_input() {
    assert_eq!(
        expected_repository_url(" Use Demo ").as_str(),
        "https://github.com/RustUse/use-demo"
    );
    assert_eq!(expected_docs_url("USE_demo").to_string(), "https://docs.rs/use-demo");
}

#[test]
fn flags_a_stored_name_that_is_not_valid() {
    let metadata = CrateMetadata {
        name: CrateName::from_stored(String::from("Use Demo")),
        kind: CrateKind::Unknown,
        description: None,
        license: None,
        repository: Some(RepositoryUrl::new(String::from("https://example.org/demo"))),
        documentation: Some(expected_docs_url("use_demo")),
        homepage: None,
        publish_status: PublishStatus::Publishable,
    };
    assert_eq!(metadata.name.as_str(), "Use Demo");
    assert_eq!(
        validate_crate_metadata(&metadata),
        vec![
            String::from("crate name is not a valid package name"),
            String::from("crate name does not follow the RustUse use-* naming convention"),
            String::from("repository URL should be https://github.com/RustUse/use-demo"),
        ]
    );
    assert!(!is_publishable(&metadata));
}

#[test]
fn normalizing_twice_changes_nothing_more() {
    for text in [" Use Rust Release_tools ", "__Foo__Bar--", "A  B", "use-demo", "x_-_y"] {
        let once = normalize_crate_name(text);
        assert_eq!(normalize_crate_name(&once), once, "{text}");
    }
    // Whitespace left at an edge by the first pass is trimmed by the second.
    assert_eq!(normalize_crate_name("a\t-"), "a\t");
    assert_eq!(normalize_crate_name("a\t"), "a");

    let name = CrateName::new(" Use_Demo ").expect("valid");
    let again = CrateName::new(name.as_str()).expect("a validated name stays valid");
    assert_eq!(again, name);
}

#[test]
fn plain_names_normalize_to_valid_names_no_longer_than_the_input() {
    for text in ["  My_Crate 2 ", "-_- x", "ABC", "9", "use rust_release"] {
        let normalized = normalize_crate_name(text);
        assert!(is_valid_crate_name(&normalized), "{text}");
        assert!(CrateName::new(text).is_ok(), "{text}");
        assert!(normalized.len() <= text.len(), "{text}");
    }
    for text in ["Ärger", "日本 語", " \u{3000}x\u{3000} "] {
        assert!(normalize_crate_name(text).len() <= text.len(), "{text}");
    }
}
