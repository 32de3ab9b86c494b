use use_rust::prelude::{expected_repository_url, next_patch, parse_version};

#[test]
fn reexports_common_helpers() {
    let version = parse_version("0.1.0").expect("version should parse");

    assert_eq!(
        expected_repository_url("use-release").as_str(),
        "https://github.com/RustUse/use-release"
    );
    assert_eq!(next_patch(&version).to_string(), "0.1.1");
}
