//! Release readiness: the checks a crate must pass before a release, the
//! report they produce, and release plans derived from a version bump.

use vstd::prelude::*;
use crate::text::{concat_text, same_text, opt_text, has_prefix};
use crate::naming::{
    valid_crate_name, has_use_prefix, repository_url_for, docs_url_for, is_valid_crate_name,
    is_use_prefixed,
};
use crate::identity::{
    CrateMetadata, crate_metadata_issues, validate_crate_metadata, texts, expected_repository_url,
    expected_docs_url, rustuse_homepage,
};
use crate::cargo::{CargoManifest, CargoManifestError, package_text, manifest_publishable,
    manifest_error_prefix, manifest_error_text};
use crate::toml_doc::TomlNode;
use crate::version::{
    Version, VersionBump, VersionError, ReleaseLevel, parse_version, semver_parse_result,
    next_patch, next_minor, next_major, next_patch_parts, next_minor_parts, next_major_parts,
};

verus! {

/// A single release-readiness check.
#[derive(Clone, Copy, Debug, PartialEq, Eq, Structural)]
pub enum ReleaseCheck {
    CargoTomlExists,
    ReadmeExists,
    LicenseFilesExist,
    DescriptionPresent,
    LicensePresent,
    RepositoryPresent,
    DocumentationPresent,
    HomepagePresent,
    Publishable,
    VersionValid,
    CrateNameValid,
    RustUseNaming,
}

/// The overall release status.
#[derive(Clone, Copy, Debug, PartialEq, Eq, Structural)]
pub enum ReleaseStatus {
    Ready,
    HasIssues,
}

/// A recorded release-readiness issue.
#[derive(Clone, Debug, PartialEq, Eq)]
pub struct ReleaseIssue {
    pub check: ReleaseCheck,
    pub message: String,
}

/// A recorded issue by its check and message text.
pub open spec fn issue_view(i: ReleaseIssue) -> (ReleaseCheck, Seq<char>) {
    (i.check, i.message@)
}

/// The issues by check and message text.
pub open spec fn issue_views(s: Seq<ReleaseIssue>) -> Seq<(ReleaseCheck, Seq<char>)> {
    s.map_values(|i: ReleaseIssue| issue_view(i))
}

/// One issue, if the condition holds.
pub open spec fn issue_if(cond: bool, check: ReleaseCheck, message: Seq<char>) -> Seq<
    (ReleaseCheck, Seq<char>),
> {
    if cond {
        seq![(check, message)]
    } else {
        Seq::empty()
    }
}

/// The issues about the name itself and the URLs of a manifest whose package
/// is called `name`: validity, the `use-*` convention, and the expected
/// repository, docs and homepage URLs.
pub open spec fn name_url_issues(doc: TomlNode, name: Seq<char>) -> Seq<(ReleaseCheck, Seq<char>)> {
    let repository = package_text(doc, "repository"@);
    let documentation = package_text(doc, "documentation"@);
    let homepage = package_text(doc, "homepage"@);
    issue_if(
        !valid_crate_name(name),
        ReleaseCheck::CrateNameValid,
        "package.name is not a valid crate name"@,
    ) + issue_if(
        !has_use_prefix(name),
        ReleaseCheck::RustUseNaming,
        "package.name does not follow the RustUse use-* naming convention"@,
    ) + issue_if(
        repository is Some && repository != Some(repository_url_for(name)),
        ReleaseCheck::RustUseNaming,
        "package.repository should be "@ + repository_url_for(name),
    ) + issue_if(
        documentation is Some && documentation != Some(docs_url_for(name)),
        ReleaseCheck::RustUseNaming,
        "package.documentation should be "@ + docs_url_for(name),
    ) + issue_if(
        homepage is Some && homepage != Some(rustuse_homepage()),
        ReleaseCheck::RustUseNaming,
        "package.homepage should be https://rustuse.org"@,
    )
}

/// Every issue of crate metadata, recorded under the naming check.
pub open spec fn metadata_naming_issues(metadata: Option<CrateMetadata>) -> Seq<
    (ReleaseCheck, Seq<char>),
> {
    match metadata {
        Some(m) => crate_metadata_issues(m).map_values(
            |msg: Seq<char>| (ReleaseCheck::RustUseNaming, msg),
        ),
        None => Seq::empty(),
    }
}

/// The naming issues of a manifest whose package is called `name`: those of
/// the name and URLs, then every issue of the crate metadata read from the
/// manifest.
pub open spec fn naming_issues(
    doc: TomlNode,
    name: Seq<char>,
    metadata: Option<CrateMetadata>,
) -> Seq<(ReleaseCheck, Seq<char>)> {
    name_url_issues(doc, name) + metadata_naming_issues(metadata)
}

/// The issues about missing description, license, repository, documentation
/// and homepage.
pub open spec fn presence_issues(doc: TomlNode) -> Seq<(ReleaseCheck, Seq<char>)> {
    issue_if(
        package_text(doc, "description"@) is None,
        ReleaseCheck::DescriptionPresent,
        "package.description is missing"@,
    ) + issue_if(
        package_text(doc, "license"@) is None,
        ReleaseCheck::LicensePresent,
        "package.license is missing"@,
    ) + issue_if(
        package_text(doc, "repository"@) is None,
        ReleaseCheck::RepositoryPresent,
        "package.repository is missing"@,
    ) + issue_if(
        package_text(doc, "documentation"@) is None,
        ReleaseCheck::DocumentationPresent,
        "package.documentation is missing"@,
    ) + issue_if(
        package_text(doc, "homepage"@) is None,
        ReleaseCheck::HomepagePresent,
        "package.homepage is missing"@,
    )
}

/// The issues about publishing being forbidden and about a missing or
/// invalid version.
pub open spec fn publish_version_issues(doc: TomlNode) -> Seq<(ReleaseCheck, Seq<char>)> {
    issue_if(
        !manifest_publishable(doc),
        ReleaseCheck::Publishable,
        "package is not publishable under current Cargo metadata"@,
    ) + match package_text(doc, "version"@) {
        Some(v) => issue_if(
            semver_parse_result(v) is Err,
            ReleaseCheck::VersionValid,
            "package.version is not valid semantic versioning"@,
        ),
        None => seq![(ReleaseCheck::VersionValid, "package.version is missing"@)],
    }
}

/// The issues about the package name: missing, or else the naming issues.
pub open spec fn name_issues(doc: TomlNode, metadata: Option<CrateMetadata>) -> Seq<
    (ReleaseCheck, Seq<char>),
> {
    match package_text(doc, "name"@) {
        Some(n) => naming_issues(doc, n, metadata),
        None => seq![(ReleaseCheck::CrateNameValid, "package.name is missing"@)],
    }
}

/// The issues a manifest raises, in order: missing description, license,
/// repository, documentation and homepage; publishing forbidden; a missing or
/// invalid version; a missing name, or else the naming issues.
pub open spec fn manifest_issues(doc: TomlNode, metadata: Option<CrateMetadata>) -> Seq<
    (ReleaseCheck, Seq<char>),
> {
    presence_issues(doc) + publish_version_issues(doc) + name_issues(doc, metadata)
}

/// Builds an issue.
fn issue(check: ReleaseCheck, message: &str) -> (r: ReleaseIssue)
    ensures
        issue_view(r) == (check, message@),
{
    ReleaseIssue { check, message: String::from_str(message) }
}

/// Appends an issue to the list.
fn push_issue(issues: &mut Vec<ReleaseIssue>, check: ReleaseCheck, message: &str)
    ensures
        issue_views(final(issues)@) == issue_views(old(issues)@).push((check, message@)),
{
    issues.push(issue(check, message));
    proof {
        assert(issue_views(issues@) =~= issue_views(old(issues)@).push((check, message@)));
    }
}

/// Appends an issue when the condition holds.
fn push_issue_if(issues: &mut Vec<ReleaseIssue>, cond: bool, check: ReleaseCheck, message: &str)
    ensures
        issue_views(final(issues)@) == issue_views(old(issues)@) + issue_if(cond, check, message@),
{
    if cond {
        push_issue(issues, check, message);
    } else {
        assert(issue_views(issues@) =~= issue_views(old(issues)@) + issue_if(cond, check, message@));
    }
}

/// Appends the issues about the name and the URLs of a manifest whose
/// package is called `name`.
fn append_name_url_issues(manifest: &CargoManifest, name: &str, issues: &mut Vec<ReleaseIssue>)
    ensures
        issue_views(final(issues)@) == issue_views(old(issues)@) + name_url_issues(
            manifest.document_model(),
            name@,
        ),
{
    let ghost start = issue_views(issues@);
    let ghost doc = manifest.document_model();
    push_issue_if(
        issues,
        !is_valid_crate_name(name),
        ReleaseCheck::CrateNameValid,
        "package.name is not a valid crate name",
    );
    push_issue_if(
        issues,
        !is_use_prefixed(name),
        ReleaseCheck::RustUseNaming,
        "package.name does not follow the RustUse use-* naming convention",
    );
    let repository = manifest.repository();
    let expected_repository = expected_repository_url(name);
    let repository_differs = match repository {
        Some(url) => !same_text(url, expected_repository.as_str()),
        None => false,
    };
    let repository_message = concat_text(
        "package.repository should be ",
        expected_repository.as_str(),
    );
    push_issue_if(
        issues,
        repository_differs,
        ReleaseCheck::RustUseNaming,
        repository_message.as_str(),
    );
    let documentation = manifest.documentation();
    let expected_docs = expected_docs_url(name);
    let documentation_differs = match documentation {
        Some(url) => !same_text(url, expected_docs.as_str()),
        None => false,
    };
    let documentation_message = concat_text(
        "package.documentation should be ",
        expected_docs.as_str(),
    );
    push_issue_if(
        issues,
        documentation_differs,
        ReleaseCheck::RustUseNaming,
        documentation_message.as_str(),
    );
    let homepage_differs = match manifest.homepage() {
        Some(url) => !same_text(url, "https://rustuse.org"),
        None => false,
    };
    push_issue_if(
        issues,
        homepage_differs,
        ReleaseCheck::RustUseNaming,
        "package.homepage should be https://rustuse.org",
    );
    proof {
        assert(issue_views(issues@) =~= start + name_url_issues(doc, name@));
    }
}

/// Appends every issue of the crate metadata under the naming check.
fn append_metadata_naming_issues(metadata: Option<CrateMetadata>, issues: &mut Vec<ReleaseIssue>)
    ensures
        issue_views(final(issues)@) == issue_views(old(issues)@) + metadata_naming_issues(
            metadata,
        ),
{
    let ghost start = issue_views(issues@);
    match metadata {
        Some(m) => {
            let messages = validate_crate_metadata(&m);
            let ghost all = crate_metadata_issues(m);
            let n = messages.len();
            for i in 0..n
                invariant
                    n == messages@.len(),
                    texts(messages@) == all,
                    issue_views(issues@) == start + all.take(i as int).map_values(
                        |msg: Seq<char>| (ReleaseCheck::RustUseNaming, msg),
                    ),
            {
                push_issue(issues, ReleaseCheck::RustUseNaming, messages[i].as_str());
                proof {
                    assert(all[i as int] == messages@[i as int]@);
                    assert(all.take(i + 1) =~= all.take(i as int).push(all[i as int]));
                    assert(all.take(i + 1).map_values(
                        |msg: Seq<char>| (ReleaseCheck::RustUseNaming, msg),
                    ) =~= all.take(i as int).map_values(
                        |msg: Seq<char>| (ReleaseCheck::RustUseNaming, msg),
                    ).push((ReleaseCheck::RustUseNaming, all[i as int])));
                }
            }
            proof {
                assert(all.take(n as int) =~= all);
            }
        },
        None => {
            assert(issue_views(issues@) =~= start + metadata_naming_issues(metadata));
        },
    }
}

/// Appends the issues about missing description, license, repository,
/// documentation and homepage.
fn append_presence_issues(manifest: &CargoManifest, issues: &mut Vec<ReleaseIssue>)
    ensures
        issue_views(final(issues)@) == issue_views(old(issues)@) + presence_issues(
            manifest.document_model(),
        ),
{
    let ghost start = issue_views(issues@);
    push_issue_if(
        issues,
        manifest.description().is_none(),
        ReleaseCheck::DescriptionPresent,
        "package.description is missing",
    );
    push_issue_if(
        issues,
        manifest.license().is_none(),
        ReleaseCheck::LicensePresent,
        "package.license is missing",
    );
    push_issue_if(
        issues,
        manifest.repository().is_none(),
        ReleaseCheck::RepositoryPresent,
        "package.repository is missing",
    );
    push_issue_if(
        issues,
        manifest.documentation().is_none(),
        ReleaseCheck::DocumentationPresent,
        "package.documentation is missing",
    );
    push_issue_if(
        issues,
        manifest.homepage().is_none(),
        ReleaseCheck::HomepagePresent,
        "package.homepage is missing",
    );
    proof {
        assert(issue_views(issues@) =~= start + presence_issues(manifest.document_model()));
    }
}

/// Appends the issues about publishing and the version.
fn append_publish_version_issues(manifest: &CargoManifest, issues: &mut Vec<ReleaseIssue>)
    ensures
        issue_views(final(issues)@) == issue_views(old(issues)@) + publish_version_issues(
            manifest.document_model(),
        ),
{
    let ghost start = issue_views(issues@);
    push_issue_if(
        issues,
        !manifest.is_publishable(),
        ReleaseCheck::Publishable,
        "package is not publishable under current Cargo metadata",
    );
    match manifest.package_version() {
        Some(version) => {
            let invalid = parse_version(version).is_err();
            push_issue_if(
                issues,
                invalid,
                ReleaseCheck::VersionValid,
                "package.version is not valid semantic versioning",
            );
        },
        None => push_issue(issues, ReleaseCheck::VersionValid, "package.version is missing"),
    }
    proof {
        assert(issue_views(issues@) =~= start + publish_version_issues(
            manifest.document_model(),
        ));
    }
}

/// Appends the issues that a manifest raises; `metadata` is the crate
/// metadata read from the same manifest, when it could be read.
#[verifier::spinoff_prover]
pub fn append_manifest_issues(
    manifest: &CargoManifest,
    metadata: Option<CrateMetadata>,
    issues: &mut Vec<ReleaseIssue>,
)
    ensures
        issue_views(final(issues)@) == issue_views(old(issues)@) + manifest_issues(
            manifest.document_model(),
            metadata,
        ),
{
    let ghost start = issue_views(issues@);
    let ghost doc = manifest.document_model();
    append_presence_issues(manifest, issues);
    append_publish_version_issues(manifest, issues);
    let ghost middle = issue_views(issues@);
    proof {
        assert(middle =~= start + (presence_issues(doc) + publish_version_issues(doc)));
    }
    match manifest.package_name() {
        Some(name) => {
            append_name_url_issues(manifest, name, issues);
            let ghost after_names = issue_views(issues@);
            append_metadata_naming_issues(metadata, issues);
            proof {
                assert(issue_views(issues@) =~= after_names + metadata_naming_issues(metadata));
                assert(name_issues(doc, metadata) == naming_issues(doc, name@, metadata));
                assert(issue_views(issues@) =~= middle + name_issues(doc, metadata));
            }
        },
        None => {
            push_issue(issues, ReleaseCheck::CrateNameValid, "package.name is missing");
            proof {
                assert(issue_views(issues@) =~= middle + name_issues(doc, metadata));
            }
        },
    }
    proof {
        assert(issue_views(issues@) =~= start + manifest_issues(doc, metadata));
    }
}

/// A manifest that has a description, a license, the RustUse homepage, the
/// repository and docs URLs expected for its `use-*` name in canonical form,
/// a version that `semver` parses, and no ban on publishing raises no issue,
/// whether or not the crate metadata read from it is given.
pub proof fn lemma_complete_manifest_has_no_issues(
    doc: TomlNode,
    name: Seq<char>,
    version: Seq<char>,
    metadata: Option<CrateMetadata>,
    has_lib: bool,
    has_main: bool,
)
    requires
        package_text(doc, "name"@) == Some(name),
        crate::naming::canonical_crate_name(name),
        has_use_prefix(name),
        package_text(doc, "version"@) == Some(version),
        semver_parse_result(version) is Ok,
        package_text(doc, "description"@) is Some,
        package_text(doc, "license"@) is Some,
        package_text(doc, "repository"@) == Some(repository_url_for(name)),
        package_text(doc, "documentation"@) == Some(docs_url_for(name)),
        package_text(doc, "homepage"@) == Some(rustuse_homepage()),
        manifest_publishable(doc),
        metadata is Some ==> crate::identity::metadata_describes(
            metadata.unwrap(),
            doc,
            has_lib,
            has_main,
        ),
    ensures
        manifest_issues(doc, metadata) =~= Seq::<(ReleaseCheck, Seq<char>)>::empty(),
{
    crate::naming::lemma_canonical_is_normalized(name);
    assert(name_url_issues(doc, name) =~= Seq::<(ReleaseCheck, Seq<char>)>::empty());
    if metadata is Some {
        let m = metadata.unwrap();
        assert(m.name@ == name);
        assert(crate_metadata_issues(m) =~= Seq::<Seq<char>>::empty());
    }
    assert(metadata_naming_issues(metadata) =~= Seq::<(ReleaseCheck, Seq<char>)>::empty());
}

/// How many of the issues are recorded under the given check.
pub open spec fn issue_count(s: Seq<(ReleaseCheck, Seq<char>)>, check: ReleaseCheck) -> nat
    decreases s.len(),
{
    if s.len() == 0 {
        0
    } else {
        issue_count(s.drop_last(), check) + if s.last().0 == check {
            1nat
        } else {
            0nat
        }
    }
}

/// One when the condition holds, else zero.
pub open spec fn one_if(cond: bool) -> nat {
    if cond {
        1
    } else {
        0
    }
}

proof fn lemma_issue_count_concat(
    a: Seq<(ReleaseCheck, Seq<char>)>,
    b: Seq<(ReleaseCheck, Seq<char>)>,
    check: ReleaseCheck,
)
    ensures
        issue_count(a + b, check) == issue_count(a, check) + issue_count(b, check),
    decreases b.len(),
{
    if b.len() == 0 {
        assert(a + b =~= a);
    } else {
        lemma_issue_count_concat(a, b.drop_last(), check);
        assert((a + b).drop_last() =~= a + b.drop_last());
        assert((a + b).last() == b.last());
    }
}

proof fn lemma_issue_if_count(cond: bool, c: ReleaseCheck, m: Seq<char>, check: ReleaseCheck)
    ensures
        issue_count(issue_if(cond, c, m), check) == one_if(cond && c == check),
{
    if cond {
        let s = seq![(c, m)];
        assert(s.drop_last() =~= Seq::<(ReleaseCheck, Seq<char>)>::empty());
        assert(issue_count(s.drop_last(), check) == 0);
        assert(issue_count(s, check) == issue_count(s.drop_last(), check) + one_if(c == check));
    } else {
        assert(issue_if(cond, c, m) =~= Seq::<(ReleaseCheck, Seq<char>)>::empty());
    }
}

proof fn lemma_naming_only_count(s: Seq<(ReleaseCheck, Seq<char>)>, check: ReleaseCheck)
    requires
        check != ReleaseCheck::RustUseNaming,
        forall|i: int| 0 <= i < s.len() ==> (#[trigger] s[i]).0 == ReleaseCheck::RustUseNaming,
    ensures
        issue_count(s, check) == 0,
    decreases s.len(),
{
    if s.len() > 0 {
        lemma_naming_only_count(s.drop_last(), check);
    }
}

/// The issues that appending a manifest's issues adds are, for every check
/// but the naming convention, one issue when its condition holds and none
/// otherwise: a missing description, license, repository, documentation or
/// homepage; publishing forbidden; a missing or invalid version; a missing or
/// invalid name. No file-level issue is among them.
pub proof fn lemma_manifest_issue_counts(doc: TomlNode, metadata: Option<CrateMetadata>)
    ensures
        issue_count(manifest_issues(doc, metadata), ReleaseCheck::DescriptionPresent) == one_if(
            package_text(doc, "description"@) is None,
        ),
        issue_count(manifest_issues(doc, metadata), ReleaseCheck::LicensePresent) == one_if(
            package_text(doc, "license"@) is None,
        ),
        issue_count(manifest_issues(doc, metadata), ReleaseCheck::RepositoryPresent) == one_if(
            package_text(doc, "repository"@) is None,
        ),
        issue_count(manifest_issues(doc, metadata), ReleaseCheck::DocumentationPresent) == one_if(
            package_text(doc, "documentation"@) is None,
        ),
        issue_count(manifest_issues(doc, metadata), ReleaseCheck::HomepagePresent) == one_if(
            package_text(doc, "homepage"@) is None,
        ),
        issue_count(manifest_issues(doc, metadata), ReleaseCheck::Publishable) == one_if(
            !manifest_publishable(doc),
        ),
        issue_count(manifest_issues(doc, metadata), ReleaseCheck::VersionValid) == one_if(
            version_flawed(doc),
        ),
        issue_count(manifest_issues(doc, metadata), ReleaseCheck::CrateNameValid) == one_if(
            name_flawed(doc),
        ),
        issue_count(manifest_issues(doc, metadata), ReleaseCheck::CargoTomlExists) == 0,
        issue_count(manifest_issues(doc, metadata), ReleaseCheck::ReadmeExists) == 0,
        issue_count(manifest_issues(doc, metadata), ReleaseCheck::LicenseFilesExist) == 0,
{
    lemma_count_parts(doc, metadata, ReleaseCheck::DescriptionPresent);
    lemma_count_parts(doc, metadata, ReleaseCheck::LicensePresent);
    lemma_count_parts(doc, metadata, ReleaseCheck::RepositoryPresent);
    lemma_count_parts(doc, metadata, ReleaseCheck::DocumentationPresent);
    lemma_count_parts(doc, metadata, ReleaseCheck::HomepagePresent);
    lemma_count_parts(doc, metadata, ReleaseCheck::Publishable);
    lemma_count_parts(doc, metadata, ReleaseCheck::VersionValid);
    lemma_count_parts(doc, metadata, ReleaseCheck::CrateNameValid);
    lemma_count_parts(doc, metadata, ReleaseCheck::CargoTomlExists);
    lemma_count_parts(doc, metadata, ReleaseCheck::ReadmeExists);
    lemma_count_parts(doc, metadata, ReleaseCheck::LicenseFilesExist);
}

/// Whether the version raises an issue: it is missing or `semver` rejects it.
pub open spec fn version_flawed(doc: TomlNode) -> bool {
    match package_text(doc, "version"@) {
        Some(v) => semver_parse_result(v) is Err,
        None => true,
    }
}

/// Whether the name raises an issue: it is missing or not a valid crate name.
pub open spec fn name_flawed(doc: TomlNode) -> bool {
    match package_text(doc, "name"@) {
        Some(n) => !valid_crate_name(n),
        None => true,
    }
}

proof fn lemma_presence_count(doc: TomlNode, k: ReleaseCheck)
    ensures
        issue_count(presence_issues(doc), k) == one_if(package_text(doc, "description"@) is None
            && k == ReleaseCheck::DescriptionPresent) + one_if(package_text(doc, "license"@) is None
            && k == ReleaseCheck::LicensePresent) + one_if(package_text(doc, "repository"@) is None
            && k == ReleaseCheck::RepositoryPresent) + one_if(package_text(doc, "documentation"@)
            is None && k == ReleaseCheck::DocumentationPresent) + one_if(package_text(
            doc,
            "homepage"@,
        ) is None && k == ReleaseCheck::HomepagePresent),
{
    let cd = package_text(doc, "description"@) is None;
    let cl = package_text(doc, "license"@) is None;
    let cr = package_text(doc, "repository"@) is None;
    let co = package_text(doc, "documentation"@) is None;
    let ch = package_text(doc, "homepage"@) is None;
    let d = issue_if(cd, ReleaseCheck::DescriptionPresent, "package.description is missing"@);
    let l = issue_if(cl, ReleaseCheck::LicensePresent, "package.license is missing"@);
    let r = issue_if(cr, ReleaseCheck::RepositoryPresent, "package.repository is missing"@);
    let o = issue_if(co, ReleaseCheck::DocumentationPresent, "package.documentation is missing"@);
    let h = issue_if(ch, ReleaseCheck::HomepagePresent, "package.homepage is missing"@);
    lemma_issue_if_count(cd, ReleaseCheck::DescriptionPresent, "package.description is missing"@, k);
    lemma_issue_if_count(cl, ReleaseCheck::LicensePresent, "package.license is missing"@, k);
    lemma_issue_if_count(cr, ReleaseCheck::RepositoryPresent, "package.repository is missing"@, k);
    lemma_issue_if_count(co, ReleaseCheck::DocumentationPresent, "package.documentation is missing"@, k);
    lemma_issue_if_count(ch, ReleaseCheck::HomepagePresent, "package.homepage is missing"@, k);
    lemma_issue_count_concat(d, l, k);
    lemma_issue_count_concat(d + l, r, k);
    lemma_issue_count_concat(d + l + r, o, k);
    lemma_issue_count_concat(d + l + r + o, h, k);
    assert(presence_issues(doc) == d + l + r + o + h);
}

proof fn lemma_publish_version_count(doc: TomlNode, k: ReleaseCheck)
    ensures
        issue_count(publish_version_issues(doc), k) == one_if(!manifest_publishable(doc) && k
            == ReleaseCheck::Publishable) + one_if(version_flawed(doc) && k == ReleaseCheck::VersionValid),
{
    let cp = !manifest_publishable(doc);
    let p = issue_if(cp, ReleaseCheck::Publishable, "package is not publishable under current Cargo metadata"@);
    lemma_issue_if_count(cp, ReleaseCheck::Publishable, "package is not publishable under current Cargo metadata"@, k);
    let vpart = match package_text(doc, "version"@) {
        Some(v) => issue_if(
            semver_parse_result(v) is Err,
            ReleaseCheck::VersionValid,
            "package.version is not valid semantic versioning"@,
        ),
        None => seq![(ReleaseCheck::VersionValid, "package.version is missing"@)],
    };
    match package_text(doc, "version"@) {
        Some(v) => {
            lemma_issue_if_count(semver_parse_result(v) is Err, ReleaseCheck::VersionValid, "package.version is not valid semantic versioning"@, k);
        },
        None => {
            lemma_issue_if_count(true, ReleaseCheck::VersionValid, "package.version is missing"@, k);
            assert(vpart == issue_if(true, ReleaseCheck::VersionValid, "package.version is missing"@));
        },
    }
    lemma_issue_count_concat(p, vpart, k);
    assert(publish_version_issues(doc) == p + vpart);
}

proof fn lemma_name_url_count(doc: TomlNode, name: Seq<char>, k: ReleaseCheck)
    requires
        k != ReleaseCheck::RustUseNaming,
    ensures
        issue_count(name_url_issues(doc, name), k) == one_if(!valid_crate_name(name) && k
            == ReleaseCheck::CrateNameValid),
{
    let repository = package_text(doc, "repository"@);
    let documentation = package_text(doc, "documentation"@);
    let homepage = package_text(doc, "homepage"@);
    let ca = !valid_crate_name(name);
    let cb = !has_use_prefix(name);
    let cc = repository is Some && repository != Some(repository_url_for(name));
    let ce = documentation is Some && documentation != Some(docs_url_for(name));
    let cf = homepage is Some && homepage != Some(rustuse_homepage());
    let ma = "package.name is not a valid crate name"@;
    let mb = "package.name does not follow the RustUse use-* naming convention"@;
    let mc = "package.repository should be "@ + repository_url_for(name);
    let me = "package.documentation should be "@ + docs_url_for(name);
    let mf = "package.homepage should be https://rustuse.org"@;
    let a = issue_if(ca, ReleaseCheck::CrateNameValid, ma);
    let b = issue_if(cb, ReleaseCheck::RustUseNaming, mb);
    let c = issue_if(cc, ReleaseCheck::RustUseNaming, mc);
    let e = issue_if(ce, ReleaseCheck::RustUseNaming, me);
    let f = issue_if(cf, ReleaseCheck::RustUseNaming, mf);
    lemma_issue_if_count(ca, ReleaseCheck::CrateNameValid, ma, k);
    lemma_issue_if_count(cb, ReleaseCheck::RustUseNaming, mb, k);
    lemma_issue_if_count(cc, ReleaseCheck::RustUseNaming, mc, k);
    lemma_issue_if_count(ce, ReleaseCheck::RustUseNaming, me, k);
    lemma_issue_if_count(cf, ReleaseCheck::RustUseNaming, mf, k);
    lemma_issue_count_concat(a, b, k);
    lemma_issue_count_concat(a + b, c, k);
    lemma_issue_count_concat(a + b + c, e, k);
    lemma_issue_count_concat(a + b + c + e, f, k);
    assert(name_url_issues(doc, name) == a + b + c + e + f);
}

proof fn lemma_name_count(doc: TomlNode, metadata: Option<CrateMetadata>, k: ReleaseCheck)
    requires
        k != ReleaseCheck::RustUseNaming,
    ensures
        issue_count(name_issues(doc, metadata), k) == one_if(name_flawed(doc) && k
            == ReleaseCheck::CrateNameValid),
{
    match package_text(doc, "name"@) {
        Some(name) => {
            lemma_name_url_count(doc, name, k);
            let mi = metadata_naming_issues(metadata);
            lemma_naming_only_count(mi, k);
            lemma_issue_count_concat(name_url_issues(doc, name), mi, k);
        },
        None => {
            lemma_issue_if_count(true, ReleaseCheck::CrateNameValid, "package.name is missing"@, k);
            assert(name_issues(doc, metadata) == issue_if(
                true,
                ReleaseCheck::CrateNameValid,
                "package.name is missing"@,
            ));
        },
    }
}

/// The count of a check other than the naming convention among a manifest's
/// issues, piece by piece.
proof fn lemma_count_parts(doc: TomlNode, metadata: Option<CrateMetadata>, k: ReleaseCheck)
    requires
        k != ReleaseCheck::RustUseNaming,
    ensures
        issue_count(manifest_issues(doc, metadata), k) == one_if(package_text(doc, "description"@)
            is None && k == ReleaseCheck::DescriptionPresent) + one_if(package_text(doc, "license"@)
            is None && k == ReleaseCheck::LicensePresent) + one_if(package_text(doc, "repository"@)
            is None && k == ReleaseCheck::RepositoryPresent) + one_if(package_text(
            doc,
            "documentation"@,
        ) is None && k == ReleaseCheck::DocumentationPresent) + one_if(package_text(
            doc,
            "homepage"@,
        ) is None && k == ReleaseCheck::HomepagePresent) + one_if(!manifest_publishable(doc) && k
            == ReleaseCheck::Publishable) + one_if(version_flawed(doc) && k
            == ReleaseCheck::VersionValid) + one_if(name_flawed(doc) && k
            == ReleaseCheck::CrateNameValid),
{
    lemma_presence_count(doc, k);
    lemma_publish_version_count(doc, k);
    lemma_name_count(doc, metadata, k);
    lemma_issue_count_concat(presence_issues(doc), publish_version_issues(doc), k);
    lemma_issue_count_concat(
        presence_issues(doc) + publish_version_issues(doc),
        name_issues(doc, metadata),
        k,
    );
}

proof fn lemma_concat_contains(
    a: Seq<(ReleaseCheck, Seq<char>)>,
    b: Seq<(ReleaseCheck, Seq<char>)>,
    x: (ReleaseCheck, Seq<char>),
)
    ensures
        a.contains(x) ==> (a + b).contains(x),
        b.contains(x) ==> (a + b).contains(x),
{
    if a.contains(x) {
        let i = choose|i: int| 0 <= i < a.len() && a[i] == x;
        assert((a + b)[i] == x);
    }
    if b.contains(x) {
        let i = choose|i: int| 0 <= i < b.len() && b[i] == x;
        assert((a + b)[a.len() + i] == x);
    }
}

proof fn lemma_issue_if_contains(cond: bool, check: ReleaseCheck, message: Seq<char>)
    ensures
        cond ==> issue_if(cond, check, message).contains((check, message)),
        issue_if(cond, check, message).len() == 0 <==> !cond,
{
    if cond {
        assert(issue_if(cond, check, message)[0] == (check, message));
    }
}

/// For a manifest whose package is called `name`: each naming rule that is
/// broken yields its issue, whatever the other fields hold. An invalid name
/// gives the name issue, a name without the `use-` prefix the convention
/// issue, and a repository, documentation or homepage URL that is present and
/// not the expected one gives the issue naming the expected URL.
pub proof fn lemma_naming_issue_conditions(
    doc: TomlNode,
    name: Seq<char>,
    metadata: Option<CrateMetadata>,
)
    requires
        package_text(doc, "name"@) == Some(name),
    ensures
        !valid_crate_name(name) ==> manifest_issues(doc, metadata).contains(
            (ReleaseCheck::CrateNameValid, "package.name is not a valid crate name"@),
        ),
        !has_use_prefix(name) ==> manifest_issues(doc, metadata).contains(
            (
                ReleaseCheck::RustUseNaming,
                "package.name does not follow the RustUse use-* naming convention"@,
            ),
        ),
        !crate::identity::absent_or(package_text(doc, "repository"@), repository_url_for(name))
            ==> manifest_issues(doc, metadata).contains(
            (ReleaseCheck::RustUseNaming, "package.repository should be "@ + repository_url_for(name)),
        ),
        !crate::identity::absent_or(package_text(doc, "documentation"@), docs_url_for(name))
            ==> manifest_issues(doc, metadata).contains(
            (ReleaseCheck::RustUseNaming, "package.documentation should be "@ + docs_url_for(name)),
        ),
        !crate::identity::absent_or(package_text(doc, "homepage"@), rustuse_homepage())
            ==> manifest_issues(doc, metadata).contains(
            (ReleaseCheck::RustUseNaming, "package.homepage should be https://rustuse.org"@),
        ),
{
    let repository = package_text(doc, "repository"@);
    let documentation = package_text(doc, "documentation"@);
    let homepage = package_text(doc, "homepage"@);
    let ca = !valid_crate_name(name);
    let cb = !has_use_prefix(name);
    let cc = repository is Some && repository != Some(repository_url_for(name));
    let ce = documentation is Some && documentation != Some(docs_url_for(name));
    let cf = homepage is Some && homepage != Some(rustuse_homepage());
    let ma = "package.name is not a valid crate name"@;
    let mb = "package.name does not follow the RustUse use-* naming convention"@;
    let mc = "package.repository should be "@ + repository_url_for(name);
    let me = "package.documentation should be "@ + docs_url_for(name);
    let mf = "package.homepage should be https://rustuse.org"@;
    let a = issue_if(ca, ReleaseCheck::CrateNameValid, ma);
    let b = issue_if(cb, ReleaseCheck::RustUseNaming, mb);
    let c = issue_if(cc, ReleaseCheck::RustUseNaming, mc);
    let e = issue_if(ce, ReleaseCheck::RustUseNaming, me);
    let f = issue_if(cf, ReleaseCheck::RustUseNaming, mf);
    assert(name_url_issues(doc, name) == a + b + c + e + f);
    lemma_issue_if_contains(ca, ReleaseCheck::CrateNameValid, ma);
    lemma_issue_if_contains(cb, ReleaseCheck::RustUseNaming, mb);
    lemma_issue_if_contains(cc, ReleaseCheck::RustUseNaming, mc);
    lemma_issue_if_contains(ce, ReleaseCheck::RustUseNaming, me);
    lemma_issue_if_contains(cf, ReleaseCheck::RustUseNaming, mf);
    let head = presence_issues(doc) + publish_version_issues(doc);
    let mi = metadata_naming_issues(metadata);
    assert(manifest_issues(doc, metadata) == head + ((a + b + c + e + f) + mi));
    let xs = seq![
        (ReleaseCheck::CrateNameValid, ma),
        (ReleaseCheck::RustUseNaming, mb),
        (ReleaseCheck::RustUseNaming, mc),
        (ReleaseCheck::RustUseNaming, me),
        (ReleaseCheck::RustUseNaming, mf),
    ];
    assert forall|k: int| 0 <= k < 5 && (a + b + c + e + f).contains(#[trigger] xs[k]) implies manifest_issues(
        doc,
        metadata,
    ).contains(xs[k]) by {
        lemma_concat_contains(a + b + c + e + f, mi, xs[k]);
        lemma_concat_contains(head, (a + b + c + e + f) + mi, xs[k]);
    }
    let x0 = xs[0];
    let x1 = xs[1];
    let x2 = xs[2];
    let x3 = xs[3];
    let x4 = xs[4];
    lemma_concat_contains(a, b, x0);
    lemma_concat_contains(a + b, c, x0);
    lemma_concat_contains(a + b + c, e, x0);
    lemma_concat_contains(a + b + c + e, f, x0);
    lemma_concat_contains(a, b, x1);
    lemma_concat_contains(a + b, c, x1);
    lemma_concat_contains(a + b + c, e, x1);
    lemma_concat_contains(a + b + c + e, f, x1);
    lemma_concat_contains(a + b, c, x2);
    lemma_concat_contains(a + b + c, e, x2);
    lemma_concat_contains(a + b + c + e, f, x2);
    lemma_concat_contains(a + b + c, e, x3);
    lemma_concat_contains(a + b + c + e, f, x3);
    lemma_concat_contains(a + b + c + e, f, x4);
}

/// Without crate metadata, a manifest raises no issue exactly when it has a
/// description, a license, a repository, documentation and a homepage, does
/// not forbid publishing, has a version `semver` accepts, and has a valid
/// `use-*` name whose expected repository and docs URLs it gives, with the
/// RustUse homepage.
pub proof fn lemma_clean_manifest_conditions(doc: TomlNode)
    ensures
        manifest_issues(doc, None).len() == 0 <==> {
            &&& package_text(doc, "description"@) is Some
            &&& package_text(doc, "license"@) is Some
            &&& manifest_publishable(doc)
            &&& package_text(doc, "version"@) matches Some(v) && semver_parse_result(v) is Ok
            &&& package_text(doc, "name"@) matches Some(n) && {
                &&& valid_crate_name(n)
                &&& has_use_prefix(n)
                &&& package_text(doc, "repository"@) == Some(repository_url_for(n))
                &&& package_text(doc, "documentation"@) == Some(docs_url_for(n))
                &&& package_text(doc, "homepage"@) == Some(rustuse_homepage())
            }
        },
{
    assert(presence_issues(doc).len() == 0 <==> {
        &&& package_text(doc, "description"@) is Some
        &&& package_text(doc, "license"@) is Some
        &&& package_text(doc, "repository"@) is Some
        &&& package_text(doc, "documentation"@) is Some
        &&& package_text(doc, "homepage"@) is Some
    });
    assert(metadata_naming_issues(None) =~= Seq::<(ReleaseCheck, Seq<char>)>::empty());
}

/// A local release-readiness report.
#[derive(Clone, Debug, PartialEq, Eq)]
pub struct ReleaseReport {
    package_name: Option<String>,
    issues: Vec<ReleaseIssue>,
}

/// The file-level issues, in order: a missing `Cargo.toml`, a missing
/// `README.md`, missing license files.
pub open spec fn file_issues(manifest_exists: bool, readme_exists: bool, license_files_exist: bool) -> Seq<
    (ReleaseCheck, Seq<char>),
> {
    issue_if(!manifest_exists, ReleaseCheck::CargoTomlExists, "Cargo.toml is missing"@) + issue_if(
        !readme_exists,
        ReleaseCheck::ReadmeExists,
        "README.md is missing"@,
    ) + issue_if(
        !license_files_exist,
        ReleaseCheck::LicenseFilesExist,
        "license files are missing from the package or workspace root"@,
    )
}

impl ReleaseReport {
    /// The package name text, when known.
    pub closed spec fn package_name_text(&self) -> Option<Seq<char>> {
        opt_text(self.package_name)
    }

    /// The recorded issues by check and message text.
    pub closed spec fn issue_list(&self) -> Seq<(ReleaseCheck, Seq<char>)> {
        issue_views(self.issues@)
    }

    /// Builds the report for a package directory from what was found there:
    /// whether `README.md` exists, whether license files exist in the package
    /// or its workspace root, the parsed `Cargo.toml` when it exists, and the
    /// crate metadata read from that manifest when it could be read.
    pub fn from_inspection(
        readme_exists: bool,
        license_files_exist: bool,
        manifest: Option<&CargoManifest>,
        metadata: Option<CrateMetadata>,
    ) -> (r: Self)
        ensures
            r.issue_list() == file_issues(manifest is Some, readme_exists, license_files_exist)
                + match manifest {
                Some(m) => manifest_issues(m.document_model(), metadata),
                None => Seq::empty(),
            },
            r.package_name_text() == match manifest {
                Some(m) => package_text(m.document_model(), "name"@),
                None => None,
            },
    {
        let mut issues: Vec<ReleaseIssue> = Vec::new();
        let mut package_name: Option<String> = None;
        if manifest.is_none() {
            push_issue(&mut issues, ReleaseCheck::CargoTomlExists, "Cargo.toml is missing");
        }
        if !readme_exists {
            push_issue(&mut issues, ReleaseCheck::ReadmeExists, "README.md is missing");
        }
        if !license_files_exist {
            push_issue(
                &mut issues,
                ReleaseCheck::LicenseFilesExist,
                "license files are missing from the package or workspace root",
            );
        }
        let ghost files = issue_views(issues@);
        proof {
            assert(files =~= file_issues(manifest is Some, readme_exists, license_files_exist));
        }
        if let Some(m) = manifest {
            package_name = match m.package_name() {
                Some(name) => Some(String::from_str(name)),
                None => None,
            };
            append_manifest_issues(m, metadata, &mut issues);
        } else {
            proof {
                assert(issue_views(issues@) =~= files + Seq::empty());
            }
        }
        ReleaseReport { package_name, issues }
    }

    /// Returns the package name when known.
    pub fn package_name(&self) -> (r: Option<&str>)
        ensures
            crate::text::opt_str_text(r) == self.package_name_text(),
    {
        match &self.package_name {
            Some(name) => Some(name.as_str()),
            None => None,
        }
    }

    /// Returns the overall release status: ready exactly when no issue was
    /// recorded.
    pub fn status(&self) -> (r: ReleaseStatus)
        ensures
            r == ReleaseStatus::Ready <==> self.issue_list().len() == 0,
    {
        if self.issues.len() == 0 {
            ReleaseStatus::Ready
        } else {
            ReleaseStatus::HasIssues
        }
    }

    /// Returns `true` when no issues were recorded.
    pub fn is_ready(&self) -> (r: bool)
        ensures
            r == (self.issue_list().len() == 0),
    {
        self.status() == ReleaseStatus::Ready
    }

    /// Returns the recorded issues.
    pub fn issues(&self) -> (r: &[ReleaseIssue])
        ensures
            issue_views(r@) == self.issue_list(),
    {
        self.issues.as_slice()
    }
}

/// A simple release plan derived from a version bump.
#[derive(Clone, Debug, PartialEq, Eq)]
pub struct ReleasePlan {
    pub package_name: String,
    pub current_version: Version,
    pub next_version: Version,
    pub level: ReleaseLevel,
}

/// Whether a version can take the given bump without its number overflowing.
pub open spec fn bump_fits(v: crate::version::VersionParts, bump: VersionBump) -> bool {
    match bump {
        VersionBump::Patch => v.patch < u64::MAX,
        VersionBump::Minor => v.minor < u64::MAX,
        VersionBump::Major => v.major < u64::MAX,
    }
}

/// The version that a bump leads to.
pub open spec fn bumped_parts(v: crate::version::VersionParts, bump: VersionBump) -> crate::version::VersionParts {
    match bump {
        VersionBump::Patch => next_patch_parts(v),
        VersionBump::Minor => next_minor_parts(v),
        VersionBump::Major => next_major_parts(v),
    }
}

/// The release level of a bump.
pub open spec fn bump_level(bump: VersionBump) -> ReleaseLevel {
    match bump {
        VersionBump::Patch => ReleaseLevel::Patch,
        VersionBump::Minor => ReleaseLevel::Minor,
        VersionBump::Major => ReleaseLevel::Major,
    }
}

/// Every bump leads to a version above the current one, without a
/// prerelease or build metadata.
pub proof fn lemma_bump_is_greater(v: crate::version::VersionParts, bump: VersionBump)
    requires
        bump_fits(v, bump),
    ensures
        crate::version::version_order(bumped_parts(v, bump), v) == std::cmp::Ordering::Greater,
        bumped_parts(v, bump).pre.len() == 0,
        bumped_parts(v, bump).build.len() == 0,
{
}

impl ReleasePlan {
    /// Builds a release plan from a current version and bump type.
    pub fn from_bump(package_name: &str, current_version: Version, bump: VersionBump) -> (r: Self)
        requires
            bump_fits(current_version@, bump),
        ensures
            r.package_name@ == package_name@,
            r.current_version@ == current_version@,
            r.next_version@ == bumped_parts(current_version@, bump),
            r.level == bump_level(bump),
    {
        let (next_version, level) = match bump {
            VersionBump::Patch => (next_patch(&current_version), ReleaseLevel::Patch),
            VersionBump::Minor => (next_minor(&current_version), ReleaseLevel::Minor),
            VersionBump::Major => (next_major(&current_version), ReleaseLevel::Major),
        };
        ReleasePlan {
            package_name: String::from_str(package_name),
            current_version,
            next_version,
            level,
        }
    }
}

/// Errors that can occur while producing a release report.
#[derive(Debug)]
pub enum ReleaseError {
    Manifest(CargoManifestError),
    Version(VersionError),
}

/// The fixed start of the message of a release error: what was inspected,
/// then the start of the inner error's own message.
pub open spec fn release_error_prefix(error: ReleaseError) -> Seq<char> {
    match error {
        ReleaseError::Manifest(inner) => "failed to inspect Cargo manifest: "@
            + manifest_error_prefix(inner),
        ReleaseError::Version(_) => "failed to inspect version metadata: "@
            + "failed to parse semantic version: "@,
    }
}

/// The whole message of a release error, where it does not rest on the
/// operating system: what was inspected, then the inner error's whole
/// message (`None` when that has none).
pub open spec fn release_error_text(error: ReleaseError) -> Option<Seq<char>> {
    match error {
        ReleaseError::Manifest(inner) => match manifest_error_text(inner) {
            Some(t) => Some("failed to inspect Cargo manifest: "@ + t),
            None => None,
        },
        ReleaseError::Version(inner) => Some(
            "failed to inspect version metadata: "@ + ("failed to parse semantic version: "@
                + crate::version::semver_error_message(inner.semver_error())),
        ),
    }
}

impl ReleaseError {
    /// The error message (what `Display` shows).
    pub fn to_string(&self) -> (r: String)
        ensures
            has_prefix(r@, release_error_prefix(*self)),
            release_error_text(*self) is Some ==> r@ == release_error_text(*self).unwrap(),
    {
        match self {
            ReleaseError::Manifest(error) => {
                let detail = error.to_string();
                let r = concat_text("failed to inspect Cargo manifest: ", detail.as_str());
                proof {
                    let p = "failed to inspect Cargo manifest: "@;
                    let q = manifest_error_prefix(*error);
                    assert(r@.take((p + q).len() as int) =~= p + detail@.take(q.len() as int));
                }
                r
            },
            ReleaseError::Version(error) => {
                let detail = error.to_string();
                let r = concat_text("failed to inspect version metadata: ", detail.as_str());
                proof {
                    let p = "failed to inspect version metadata: "@;
                    let q = "failed to parse semantic version: "@;
                    assert(r@.take((p + q).len() as int) =~= p + detail@.take(q.len() as int));
                }
                r
            },
        }
    }
}

impl From<CargoManifestError> for ReleaseError {
    fn from(error: CargoManifestError) -> (r: Self) {
        ReleaseError::Manifest(error)
    }
}

impl vstd::std_specs::convert::FromSpecImpl<CargoManifestError> for ReleaseError {
    open spec fn obeys_from_spec() -> bool {
        true
    }

    open spec fn from_spec(error: CargoManifestError) -> Self {
        ReleaseError::Manifest(error)
    }
}

impl From<VersionError> for ReleaseError {
    fn from(error: VersionError) -> (r: Self) {
        ReleaseError::Version(error)
    }
}

impl vstd::std_specs::convert::FromSpecImpl<VersionError> for ReleaseError {
    open spec fn obeys_from_spec() -> bool {
        true
    }

    open spec fn from_spec(error: VersionError) -> Self {
        ReleaseError::Version(error)
    }
}

/// The names of the license files looked for in a package directory and in
/// its workspace root.
pub fn license_file_names() -> (r: Vec<&'static str>)
    ensures
        r@.len() == 4,
        r@[0]@ == "LICENSE"@,
        r@[1]@ == "LICENSE.md"@,
        r@[2]@ == "LICENSE-MIT"@,
        r@[3]@ == "LICENSE-APACHE"@,
{
    let mut names: Vec<&'static str> = Vec::new();
    names.push("LICENSE");
    names.push("LICENSE.md");
    names.push("LICENSE-MIT");
    names.push("LICENSE-APACHE");
    names
}

/// Whether license files were found: in the package directory, or else in
/// the workspace root found from it (`None` when no workspace root was found).
pub fn has_license_files(in_package: bool, in_workspace_root: Option<bool>) -> (r: bool)
    ensures
        r == (in_package || in_workspace_root == Some(true)),
{
    in_package || match in_workspace_root {
        Some(found) => found,
        None => false,
    }
}

impl ReleaseReport {
    /// A report with the given package name and issues.
    pub fn from_issues(package_name: Option<String>, issues: Vec<ReleaseIssue>) -> (r: Self)
        ensures
            r.package_name_text() == opt_text(package_name),
            r.issue_list() == issue_views(issues@),
    {
        ReleaseReport { package_name, issues }
    }
}

} // verus!
