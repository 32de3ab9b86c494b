use std::cmp::Ordering;

use use_rust::version::{
    compare_versions, is_prerelease, next_major, next_minor, next_patch, parse_version, Version,
};

#[test]
fn parses_versions() {
    let version = parse_version("1.2.3").expect("version should parse");

    assert_eq!(version.to_string(), "1.2.3");
    assert_eq!(version.major(), 1);
    assert!(parse_version("not-a-version").is_err());
}

#[test]
fn detects_prereleases() {
    let stable = parse_version("1.2.3").expect("stable version should parse");
    let prerelease = parse_version("1.2.3-alpha.1").expect("prerelease should parse");

    assert!(!is_prerelease(&stable));
    assert!(is_prerelease(&prerelease));
}

#[test]
fn bumps_versions() {
    let version = parse_version("0.1.2-alpha.1+build.7").expect("version should parse");

    assert_eq!(next_patch(&version).to_string(), "0.1.3");
    assert_eq!(next_minor(&version).to_string(), "0.2.0");
    assert_eq!(next_major(&version).to_string(), "1.0.0");
}

#[test]
fn compares_versions() {
    let earlier = parse_version("0.1.0").expect("version should parse");
    let later = parse_version("0.2.0").expect("version should parse");

    assert_eq!(compare_versions(&earlier, &later), Ordering::Less);
    assert_eq!(compare_versions(&later, &earlier), Ordering::Greater);
    assert_eq!(compare_versions(&earlier, &earlier), Ordering::Equal);
}

#[test]
fn keeps_the_parts_of_a_version() {
    let version = parse_version("10.20.30-rc.1+sha.5114f85").expect("version should parse");
    assert_eq!(version.major(), 10);
    assert_eq!(version.minor(), 20);
    assert_eq!(version.patch(), 30);
    assert_eq!(version.pre(), "rc.1");
    assert_eq!(version.build(), "sha.5114f85");
    assert_eq!(version.to_string(), "10.20.30-rc.1+sha.5114f85");
}

#[test]
fn rejects_malformed_versions() {
    for text in ["", "1.0", "1.0.01", "1.0.0-", "1.0.0+", "1.0.0-alpha_1", "23456789999999999999.0.0"] {
        assert!(parse_version(text).is_err(), "{text} should be rejected");
    }
    let error = parse_version("1.q.r").expect_err("letters are rejected");
    let _ = error.source();
}

#[test]
fn orders_prereleases_below_releases() {
    let texts = [
        "1.0.0-alpha",
        "1.0.0-alpha.1",
        "1.0.0-alpha.beta",
        "1.0.0-beta",
        "1.0.0-beta.2",
        "1.0.0-beta.11",
        "1.0.0-rc.1",
        "1.0.0",
    ];
    let versions: Vec<_> = texts.iter().map(|t| parse_version(t).expect("parses")).collect();
    for i in 0..versions.len() {
        for j in 0..versions.len() {
            assert_eq!(compare_versions(&versions[i], &versions[j]), i.cmp(&j));
        }
    }
}

#[test]
fn orders_build_metadata_after_equal_precedence() {
    let plain = parse_version("1.20.0").expect("parses");
    let first = parse_version("1.20.0+bc17664").expect("parses");
    let second = parse_version("1.20.0+c144a98").expect("parses");
    assert_eq!(compare_versions(&plain, &first), Ordering::Less);
    assert_eq!(compare_versions(&first, &second), Ordering::Less);
    assert_eq!(compare_versions(&second, &first), Ordering::Greater);
}

#[test]
fn bumped_versions_are_greater_and_not_prereleases() {
    let version = parse_version("3.4.5-beta").expect("parses");
    for next in [next_patch(&version), next_minor(&version), next_major(&version)] {
        assert_eq!(compare_versions(&next, &version), Ordering::Greater);
        assert!(!is_prerelease(&next));
    }
    assert_eq!(next_patch(&version).to_string(), "3.4.6");
    assert_eq!(version.clone().to_string(), "3.4.5-beta");
}

#[test]
fn builds_versions_from_parts() {
    let plain = Version::from_parts(1, 2, 3, "", "").expect("empty parts are accepted");
    assert_eq!(plain.to_string(), "1.2.3");
    let full = Version::from_parts(0, 9, 1, "rc.2", "exp.sha.5114f85").expect("accepted");
    assert_eq!(full.to_string(), "0.9.1-rc.2+exp.sha.5114f85");
    assert!(is_prerelease(&full));
    assert_eq!(
        compare_versions(&full, &parse_version("0.9.1-rc.2+exp.sha.5114f85").expect("parses")),
        Ordering::Equal
    );
    assert!(Version::from_parts(1, 0, 0, "01", "").is_err());
    assert!(Version::from_parts(1, 0, 0, "", "a..b").is_err());
    assert!(Version::from_parts(1, 0, 0, "alpha beta", "").is_err());
}
