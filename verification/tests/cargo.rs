use use_rust::cargo::{
    is_workspace, manifest_candidate, manifest_search_step, normalize_search_start, package_names,
    publishable_packages, workspace_member_positions, workspace_search_step, CargoEdition,
    CargoManifest, CargoPackage, CargoWorkspace, ManifestCandidate, ManifestPath, SearchStart,
    SearchStep,
    WorkspaceRoot,
};

fn manifest(path: &str, contents: &str) -> CargoManifest {
    CargoManifest::from_text(ManifestPath::from_utf8(String::from(path)), contents)
        .expect("manifest should parse")
}

#[test]
fn reads_manifest_metadata_dependencies_and_features() {
    let manifest = manifest(
        "manifest-read/Cargo.toml",
        r#"[package]
name = "use-demo"
version = "0.1.0"
edition = "2021"
description = "demo crate"
license = "MIT OR Apache-2.0"
repository = "https://github.com/RustUse/use-demo"
documentation = "https://docs.rs/use-demo"
homepage = "https://rustuse.org"
readme = "README.md"

[dependencies]
serde = { version = "1", optional = true }
semver = "1"

[features]
default = ["serde"]
"#,
    );

    assert_eq!(manifest.package_name(), Some("use-demo"));
    assert_eq!(manifest.package_version(), Some("0.1.0"));
    assert_eq!(manifest.edition(), Some(CargoEdition::E2021));
    assert_eq!(
        manifest.repository(),
        Some("https://github.com/RustUse/use-demo")
    );
    assert_eq!(manifest.dependencies().len(), 2);
    assert_eq!(manifest.features().len(), 1);
    assert!(manifest.is_publishable());
}

#[test]
fn discovers_workspace_members_and_publishable_packages() {
    let one = manifest(
        "workspace-members/crates/use-one/Cargo.toml",
        r#"[package]
name = "use-one"
version = "0.1.0"
edition = "2021"
repository = "https://github.com/RustUse/use-one"
"#,
    );
    let two = manifest(
        "workspace-members/crates/use-two/Cargo.toml",
        r#"[package]
name = "use-two"
version = "0.1.0"
edition = "2021"
repository = "https://github.com/RustUse/use-two"
publish = false
"#,
    );
    let packages = vec![
        CargoPackage::from_manifest(String::from("use-two"), String::from("0.1.0"), &two),
        CargoPackage::from_manifest(String::from("use-one"), String::from("0.1.0"), &one),
    ];

    let workspace = CargoWorkspace::from_members(
        WorkspaceRoot::from_utf8(String::from("workspace-members")),
        packages,
    );
    let members = workspace.clone().into_members();
    let names = package_names(workspace.members());
    let publishable = publishable_packages(members.clone());

    assert_eq!(workspace.members().len(), 2);
    assert_eq!(members.len(), 2);
    assert_eq!(
        names,
        vec![String::from("use-one"), String::from("use-two")]
    );
    assert_eq!(publishable.len(), 1);
    assert_eq!(publishable[0].name, "use-one");
}

#[test]
fn parses_and_prints_editions() {
    assert_eq!(CargoEdition::parse("2015"), CargoEdition::E2015);
    assert_eq!(CargoEdition::parse("2018"), CargoEdition::E2018);
    assert_eq!(CargoEdition::parse("2024"), CargoEdition::E2024);
    assert_eq!(
        CargoEdition::parse("2027"),
        CargoEdition::Other(String::from("2027"))
    );
    for text in ["2015", "2018", "2021", "2024", "2030", ""] {
        assert_eq!(CargoEdition::parse(text).as_str(), text);
    }
}

#[test]
fn reads_dependency_requirements_and_optional_flags() {
    let manifest = manifest(
        "deps/Cargo.toml",
        r#"[package]
name = "use-deps"

[dependencies]
plain = "1.2"
detailed = { version = "0.3", optional = true }
pathonly = { path = "../x" }
flagged = { version = "2", optional = "yes" }

[dependencies.table-form]
version = "4"
optional = false
"#,
    );
    let deps = manifest.dependencies();
    let view: Vec<(String, Option<String>, bool)> = deps
        .iter()
        .map(|d| (d.name.clone(), d.requirement.clone(), d.optional))
        .collect();
    assert_eq!(
        view,
        vec![
            (String::from("plain"), Some(String::from("1.2")), false),
            (String::from("detailed"), Some(String::from("0.3")), true),
            (String::from("pathonly"), None, false),
            (String::from("flagged"), Some(String::from("2")), false),
            (String::from("table-form"), Some(String::from("4")), false),
        ]
    );
}

#[test]
fn reads_features_and_workspace_members() {
    let manifest = manifest(
        "ws/Cargo.toml",
        r#"[workspace]
members = ["crates/a", 3, "crates/b"]

[features]
default = ["std", "serde"]
std = []
odd = "not-an-array"
"#,
    );
    assert!(manifest.is_workspace());
    assert!(is_workspace(&manifest));
    assert_eq!(
        manifest.workspace_members(),
        vec![String::from("crates/a"), String::from("crates/b")]
    );
    let features = manifest.features();
    assert_eq!(features.len(), 3);
    assert_eq!(features[0].name, "default");
    assert_eq!(
        features[0].members,
        vec![String::from("std"), String::from("serde")]
    );
    assert!(features[1].members.is_empty());
    assert!(features[2].members.is_empty());
    assert_eq!(manifest.package_name(), None);
    assert_eq!(manifest.edition(), None);
}

#[test]
fn decides_publishability_from_the_publish_key() {
    let cases = [
        ("", true),
        ("publish = true", true),
        ("publish = false", false),
        ("publish = []", false),
        ("publish = [\"crates-io\"]", true),
        ("publish = 3", true),
    ];
    for (line, expected) in cases {
        let text = format!("[package]\nname = \"use-x\"\n{line}\n");
        assert_eq!(manifest("p/Cargo.toml", &text).is_publishable(), expected, "{line}");
    }
}

#[test]
fn rejects_text_that_is_not_toml() {
    let result = CargoManifest::from_text(
        ManifestPath::from_utf8(String::from("bad/Cargo.toml")),
        "[package\nname = ",
    );
    assert!(result.is_err());
}

#[test]
fn sorts_workspace_members_by_name() {
    let m = manifest("m/Cargo.toml", "[package]\nname = \"x\"\n");
    let packages = vec![
        CargoPackage::from_manifest(String::from("use-c"), String::from("1.0.0"), &m),
        CargoPackage::from_manifest(String::from("use-a"), String::from("1.0.0"), &m),
        CargoPackage::from_manifest(String::from("use-b"), String::from("1.0.0"), &m),
    ];
    let workspace =
        CargoWorkspace::from_members(WorkspaceRoot::from_utf8(String::from("/ws")), packages);
    let names: Vec<&str> = workspace.members().iter().map(|p| p.name.as_str()).collect();
    assert_eq!(names, vec!["use-a", "use-b", "use-c"]);
    assert_eq!(workspace.root().as_str(), "/ws");
    assert_eq!(workspace.members()[0].manifest_path.as_str(), "m/Cargo.toml");
    assert_eq!(workspace.members()[0].version, Some(String::from("1.0.0")));
}

#[test]
fn keeps_the_order_of_members_with_equal_names() {
    let m = manifest("m/Cargo.toml", "[package]\nname = \"x\"\n");
    let packages = vec![
        CargoPackage::from_manifest(String::from("use-b"), String::from("2.0.0"), &m),
        CargoPackage::from_manifest(String::from("use-a"), String::from("1.0.0"), &m),
        CargoPackage::from_manifest(String::from("use-b"), String::from("1.0.0"), &m),
        CargoPackage::from_manifest(String::from("use-a"), String::from("3.0.0"), &m),
    ];
    let workspace =
        CargoWorkspace::from_members(WorkspaceRoot::from_utf8(String::from("/ws")), packages);
    let view: Vec<(&str, &str)> = workspace
        .members()
        .iter()
        .map(|p| (p.name.as_str(), p.version.as_deref().unwrap_or("")))
        .collect();
    assert_eq!(
        view,
        vec![("use-a", "1.0.0"), ("use-a", "3.0.0"), ("use-b", "2.0.0"), ("use-b", "1.0.0")]
    );
}

#[test]
fn selects_the_packages_that_are_workspace_members() {
    let ids = vec![
        String::from("dep 1.0.0"),
        String::from("use-one 0.1.0"),
        String::from("other 2.0.0"),
        String::from("use-two 0.1.0"),
    ];
    let members = vec![String::from("use-two 0.1.0"), String::from("use-one 0.1.0")];
    assert_eq!(workspace_member_positions(&ids, &members), vec![1, 3]);
    assert!(workspace_member_positions(&ids, &[]).is_empty());
    assert!(workspace_member_positions(&[], &members).is_empty());
}

#[test]
fn decides_where_a_search_starts_and_goes() {
    assert_eq!(normalize_search_start(true, true), SearchStart::Itself);
    assert_eq!(normalize_search_start(true, false), SearchStart::Itself);
    assert_eq!(normalize_search_start(false, true), SearchStart::Parent);
    assert_eq!(normalize_search_start(false, false), SearchStart::CurrentDir);

    assert_eq!(manifest_candidate(true), ManifestCandidate::InDirectory);
    assert_eq!(manifest_candidate(false), ManifestCandidate::Itself);

    assert_eq!(manifest_search_step(true, true), SearchStep::Found);
    assert_eq!(manifest_search_step(false, true), SearchStep::Ascend);
    assert_eq!(manifest_search_step(false, false), SearchStep::Exhausted);

    let workspace = manifest("ws/Cargo.toml", "[workspace]\nmembers = []\n");
    let package = manifest("p/Cargo.toml", "[package]\nname = \"use-p\"\n");
    assert_eq!(workspace_search_step(Some(&workspace), true), SearchStep::Found);
    assert_eq!(workspace_search_step(Some(&package), true), SearchStep::Ascend);
    assert_eq!(workspace_search_step(None, true), SearchStep::Ascend);
    assert_eq!(workspace_search_step(Some(&package), false), SearchStep::Exhausted);
}

/// The parent of a `/`-separated path, as `Path::parent` gives it.
fn parent_of(path: &str) -> Option<String> {
    if path == "/" {
        return None;
    }
    let cut = path.rfind('/')?;
    Some(if cut == 0 { String::from("/") } else { String::from(&path[..cut]) })
}

fn join(dir: &str, name: &str) -> String {
    if dir.ends_with('/') { format!("{dir}{name}") } else { format!("{dir}/{name}") }
}

#[test]
fn finds_manifest_and_workspace_roots() {
    // The files of the directory tree, by path; every other path is a directory
    // or absent.
    let root = "/tmp/workspace-find";
    let files: Vec<(String, &str)> = vec![
        (join(root, "Cargo.toml"), "[workspace]\nmembers = [\"crates/use-demo\"]\n"),
        (
            join(root, "crates/use-demo/Cargo.toml"),
            "[package]\nname = \"use-demo\"\nversion = \"0.1.0\"\nedition = \"2021\"\nrepository = \"https://github.com/RustUse/use-demo\"\n",
        ),
    ];
    let file = |path: &str| files.iter().find(|(p, _)| p == path).map(|(_, c)| *c);
    let nested = join(root, "crates/use-demo/src");

    let start = match normalize_search_start(true, parent_of(&nested).is_some()) {
        SearchStart::Itself => nested.clone(),
        SearchStart::Parent => parent_of(&nested).unwrap(),
        SearchStart::CurrentDir => String::from("."),
    };

    let mut current = start.clone();
    let manifest_path = loop {
        let candidate = join(&current, "Cargo.toml");
        let parent = parent_of(&current);
        match manifest_search_step(file(&candidate).is_some(), parent.is_some()) {
            SearchStep::Found => break candidate,
            SearchStep::Ascend => current = parent.unwrap(),
            SearchStep::Exhausted => panic!("manifest should be found"),
        }
    };

    let mut current = start;
    let workspace_root = loop {
        let candidate = join(&current, "Cargo.toml");
        let parsed = file(&candidate).map(|contents| manifest(&candidate, contents));
        let parent = parent_of(&current);
        match workspace_search_step(parsed.as_ref(), parent.is_some()) {
            SearchStep::Found => break current,
            SearchStep::Ascend => current = parent.unwrap(),
            SearchStep::Exhausted => panic!("workspace root should be found"),
        }
    };

    assert!(manifest_path.ends_with("crates/use-demo/Cargo.toml"));
    assert_eq!(workspace_root, root);
}
