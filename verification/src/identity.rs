//! Crate identity types and the RustUse metadata rules.

use vstd::prelude::*;
use crate::text::{copy_string, concat_text, same_text};
use crate::toml_doc::toml_item;
use crate::cargo::{package_text, text_or_empty, manifest_publishable, document_package_str, document_is_publishable};
use crate::naming::{
    canonical_crate_name, valid_crate_name, normalized_crate_name, normalize_crate_name,
    is_valid_crate_name, is_use_prefixed, has_use_prefix, repository_url_for, docs_url_for,
    expected_repository_url_text, expected_docs_url_text, lemma_valid_normalized_is_canonical,
    lemma_canonical_is_normalized,
};

verus! {

/// A validated crate name.
#[derive(Clone, Debug, PartialEq, Eq, Hash)]
pub struct CrateName(String);

impl View for CrateName {
    type V = Seq<char>;

    closed spec fn view(&self) -> Seq<char> {
        self.0@
    }
}

impl CrateName {
    /// Creates a validated crate name after applying RustUse normalization.
    pub fn new(value: &str) -> (r: Result<Self, CrateNameError>)
        ensures
            r is Ok <==> valid_crate_name(normalized_crate_name(value@)),
            r matches Ok(name) ==> name@ == normalized_crate_name(value@) && canonical_crate_name(
                name@,
            ),
            r matches Err(e) ==> e@ == value@,
    {
        let normalized = normalize_crate_name(value);
        if is_valid_crate_name(normalized.as_str()) {
            proof {
                lemma_valid_normalized_is_canonical(value@);
            }
            Ok(CrateName(normalized))
        } else {
            Err(CrateNameError(String::from_str(value)))
        }
    }

    /// A crate name exactly as it was stored, for instance in serialized
    /// metadata, taken without normalization or validation.
    pub fn from_stored(value: String) -> (r: Self)
        ensures
            r@ == value@,
    {
        CrateName(value)
    }

    /// Returns the crate name.
    pub fn as_str(&self) -> (r: &str)
        ensures
            r@ == self@,
    {
        self.0.as_str()
    }

    /// The name as text (what `Display` shows).
    pub fn to_string(&self) -> (r: String)
        ensures
            r@ == self@,
    {
        copy_string(&self.0)
    }
}

/// A broad crate kind classification.
#[derive(Clone, Copy, Debug, PartialEq, Eq, Structural)]
pub enum CrateKind {
    Library,
    Binary,
    Mixed,
    Unknown,
}

/// The publish status inferred from manifest metadata.
#[derive(Clone, Copy, Debug, PartialEq, Eq, Structural)]
pub enum PublishStatus {
    Publishable,
    Unpublishable,
}

/// A repository URL.
#[derive(Clone, Debug, PartialEq, Eq, Hash)]
pub struct RepositoryUrl(String);

impl View for RepositoryUrl {
    type V = Seq<char>;

    closed spec fn view(&self) -> Seq<char> {
        self.0@
    }
}

impl RepositoryUrl {
    /// Creates a repository URL wrapper.
    pub fn new(value: String) -> (r: Self)
        ensures
            r@ == value@,
    {
        RepositoryUrl(value)
    }

    /// Returns the underlying URL.
    pub fn as_str(&self) -> (r: &str)
        ensures
            r@ == self@,
    {
        self.0.as_str()
    }

    /// The URL as text (what `Display` shows).
    pub fn to_string(&self) -> (r: String)
        ensures
            r@ == self@,
    {
        copy_string(&self.0)
    }
}

/// A documentation URL.
#[derive(Clone, Debug, PartialEq, Eq, Hash)]
pub struct DocumentationUrl(String);

impl View for DocumentationUrl {
    type V = Seq<char>;

    closed spec fn view(&self) -> Seq<char> {
        self.0@
    }
}

impl DocumentationUrl {
    /// Creates a documentation URL wrapper.
    pub fn new(value: String) -> (r: Self)
        ensures
            r@ == value@,
    {
        DocumentationUrl(value)
    }

    /// Returns the underlying URL.
    pub fn as_str(&self) -> (r: &str)
        ensures
            r@ == self@,
    {
        self.0.as_str()
    }

    /// The URL as text (what `Display` shows).
    pub fn to_string(&self) -> (r: String)
        ensures
            r@ == self@,
    {
        copy_string(&self.0)
    }
}

/// An error returned when a crate name fails validation; it holds the
/// rejected input.
#[derive(Debug)]
pub struct CrateNameError(String);

impl View for CrateNameError {
    type V = Seq<char>;

    closed spec fn view(&self) -> Seq<char> {
        self.0@
    }
}

impl CrateNameError {
    /// The error message (what `Display` shows).
    pub fn to_string(&self) -> (r: String)
        ensures
            r@ == "invalid crate name: "@ + self@,
    {
        concat_text("invalid crate name: ", self.0.as_str())
    }
}

/// Returns the expected RustUse GitHub repository URL for a repository name.
pub fn expected_repository_url(repo_name: &str) -> (r: RepositoryUrl)
    ensures
        r@ == repository_url_for(repo_name@),
{
    RepositoryUrl::new(expected_repository_url_text(repo_name))
}

/// Returns the expected docs.rs URL for a crate name.
pub fn expected_docs_url(crate_name: &str) -> (r: DocumentationUrl)
    ensures
        r@ == docs_url_for(crate_name@),
{
    DocumentationUrl::new(expected_docs_url_text(crate_name))
}

/// Lightweight crate metadata for RustUse validation.
#[derive(Clone, Debug, PartialEq, Eq)]
pub struct CrateMetadata {
    pub name: CrateName,
    pub kind: CrateKind,
    pub description: Option<String>,
    pub license: Option<String>,
    pub repository: Option<RepositoryUrl>,
    pub documentation: Option<DocumentationUrl>,
    pub homepage: Option<String>,
    pub publish_status: PublishStatus,
}

/// The homepage every RustUse crate declares.
pub open spec fn rustuse_homepage() -> Seq<char> {
    "https://rustuse.org"@
}

/// The metadata issues, in order, for a crate with the given name, repository,
/// documentation and homepage.
pub open spec fn metadata_issues(
    name: Seq<char>,
    repository: Option<Seq<char>>,
    documentation: Option<Seq<char>>,
    homepage: Option<Seq<char>>,
) -> Seq<Seq<char>> {
    let invalid = if !valid_crate_name(name) {
        seq!["crate name is not a valid package name"@]
    } else {
        Seq::empty()
    };
    let unprefixed = if !has_use_prefix(name) {
        seq!["crate name does not follow the RustUse use-* naming convention"@]
    } else {
        Seq::empty()
    };
    let repo = match repository {
        Some(r) => if r != repository_url_for(name) {
            seq!["repository URL should be "@ + repository_url_for(name)]
        } else {
            Seq::empty()
        },
        None => Seq::empty(),
    };
    let docs = match documentation {
        Some(d) => if d != docs_url_for(name) {
            seq!["documentation URL should be "@ + docs_url_for(name)]
        } else {
            Seq::empty()
        },
        None => Seq::empty(),
    };
    let home = match homepage {
        Some(h) => if h != rustuse_homepage() {
            seq!["homepage should be https://rustuse.org for RustUse crates"@]
        } else {
            Seq::empty()
        },
        None => Seq::empty(),
    };
    invalid + unprefixed + repo + docs + home
}

/// Whether the optional text is absent or is the expected one.
pub open spec fn absent_or(t: Option<Seq<char>>, expected: Seq<char>) -> bool {
    t is None || t == Some(expected)
}

/// The metadata issues are empty exactly when the name is valid and uses the
/// `use-` prefix and each of the repository, documentation and homepage URLs
/// is absent or the expected one; and each rule that is broken yields its
/// message, whatever the other fields hold.
pub proof fn lemma_metadata_issue_conditions(
    name: Seq<char>,
    repository: Option<Seq<char>>,
    documentation: Option<Seq<char>>,
    homepage: Option<Seq<char>>,
)
    ensures
        metadata_issues(name, repository, documentation, homepage).len() == 0 <==> valid_crate_name(name)
            && has_use_prefix(name) && absent_or(repository, repository_url_for(name)) && absent_or(
            documentation,
            docs_url_for(name),
        ) && absent_or(homepage, rustuse_homepage()),
        !valid_crate_name(name) ==> metadata_issues(name, repository, documentation, homepage).contains(
            "crate name is not a valid package name"@,
        ),
        !has_use_prefix(name) ==> metadata_issues(name, repository, documentation, homepage).contains(
            "crate name does not follow the RustUse use-* naming convention"@,
        ),
        !absent_or(repository, repository_url_for(name)) ==> metadata_issues(
            name,
            repository,
            documentation,
            homepage,
        ).contains("repository URL should be "@ + repository_url_for(name)),
        !absent_or(documentation, docs_url_for(name)) ==> metadata_issues(
            name,
            repository,
            documentation,
            homepage,
        ).contains("documentation URL should be "@ + docs_url_for(name)),
        !absent_or(homepage, rustuse_homepage()) ==> metadata_issues(
            name,
            repository,
            documentation,
            homepage,
        ).contains("homepage should be https://rustuse.org for RustUse crates"@),
{
    let invalid = if !valid_crate_name(name) {
        seq!["crate name is not a valid package name"@]
    } else {
        Seq::empty()
    };
    let unprefixed = if !has_use_prefix(name) {
        seq!["crate name does not follow the RustUse use-* naming convention"@]
    } else {
        Seq::empty()
    };
    let repo = match repository {
        Some(r) => if r != repository_url_for(name) {
            seq!["repository URL should be "@ + repository_url_for(name)]
        } else {
            Seq::empty()
        },
        None => Seq::empty(),
    };
    let docs = match documentation {
        Some(d) => if d != docs_url_for(name) {
            seq!["documentation URL should be "@ + docs_url_for(name)]
        } else {
            Seq::empty()
        },
        None => Seq::empty(),
    };
    let home = match homepage {
        Some(h) => if h != rustuse_homepage() {
            seq!["homepage should be https://rustuse.org for RustUse crates"@]
        } else {
            Seq::empty()
        },
        None => Seq::empty(),
    };
    let all = metadata_issues(name, repository, documentation, homepage);
    assert(all == invalid + unprefixed + repo + docs + home);
    let p1 = invalid.len();
    let p2 = p1 + unprefixed.len();
    let p3 = p2 + repo.len();
    let p4 = p3 + docs.len();
    if invalid.len() > 0 {
        assert(all[0] == invalid[0]);
    }
    if unprefixed.len() > 0 {
        assert(all[p1 as int] == unprefixed[0]);
    }
    if repo.len() > 0 {
        assert(all[p2 as int] == repo[0]);
    }
    if docs.len() > 0 {
        assert(all[p3 as int] == docs[0]);
    }
    if home.len() > 0 {
        assert(all[p4 as int] == home[0]);
    }
}

/// The repository URL text of optional metadata.
pub open spec fn opt_repository(r: Option<RepositoryUrl>) -> Option<Seq<char>> {
    match r {
        Some(u) => Some(u@),
        None => None,
    }
}

/// The documentation URL text of optional metadata.
pub open spec fn opt_documentation(d: Option<DocumentationUrl>) -> Option<Seq<char>> {
    match d {
        Some(u) => Some(u@),
        None => None,
    }
}

/// The metadata issues that `validate_crate_metadata` reports.
pub open spec fn crate_metadata_issues(m: CrateMetadata) -> Seq<Seq<char>> {
    metadata_issues(
        m.name@,
        opt_repository(m.repository),
        opt_documentation(m.documentation),
        crate::text::opt_text(m.homepage),
    )
}

/// The texts held by a vector of strings.
pub open spec fn texts(v: Seq<String>) -> Seq<Seq<char>> {
    v.map_values(|s: String| s@)
}

/// Validates crate metadata against RustUse naming and URL defaults.
pub fn validate_crate_metadata(metadata: &CrateMetadata) -> (r: Vec<String>)
    ensures
        texts(r@) == crate_metadata_issues(*metadata),
{
    let mut issues: Vec<String> = Vec::new();
    let crate_name = metadata.name.as_str();
    let ghost name = crate_name@;

    if !is_valid_crate_name(crate_name) {
        issues.push(String::from_str("crate name is not a valid package name"));
    }
    let ghost s1 = texts(issues@);

    if !is_use_prefixed(crate_name) {
        issues.push(
            String::from_str("crate name does not follow the RustUse use-* naming convention"),
        );
    }
    let ghost s2 = texts(issues@);

    if let Some(repository) = &metadata.repository {
        let expected = expected_repository_url(crate_name);
        if !same_text(repository.as_str(), expected.as_str()) {
            issues.push(concat_text("repository URL should be ", expected.as_str()));
        }
    }
    let ghost s3 = texts(issues@);

    if let Some(documentation) = &metadata.documentation {
        let expected = expected_docs_url(crate_name);
        if !same_text(documentation.as_str(), expected.as_str()) {
            issues.push(concat_text("documentation URL should be ", expected.as_str()));
        }
    }
    let ghost s4 = texts(issues@);

    if let Some(homepage) = &metadata.homepage {
        if !same_text(homepage.as_str(), "https://rustuse.org") {
            issues.push(
                String::from_str("homepage should be https://rustuse.org for RustUse crates"),
            );
        }
    }
    proof {
        let m = *metadata;
        let spec_issues = crate_metadata_issues(m);
        assert(texts(issues@) =~= spec_issues);
    }
    issues
}

/// Returns `true` when crate metadata is publishable and follows RustUse defaults.
pub fn is_publishable(metadata: &CrateMetadata) -> (r: bool)
    ensures
        r == (metadata.publish_status == PublishStatus::Publishable
            && crate_metadata_issues(*metadata).len() == 0),
        r == (metadata.publish_status == PublishStatus::Publishable && valid_crate_name(
            metadata.name@,
        ) && has_use_prefix(metadata.name@) && absent_or(
            opt_repository(metadata.repository),
            repository_url_for(metadata.name@),
        ) && absent_or(opt_documentation(metadata.documentation), docs_url_for(metadata.name@))
            && absent_or(crate::text::opt_text(metadata.homepage), rustuse_homepage())),
{
    proof {
        lemma_metadata_issue_conditions(
            metadata.name@,
            opt_repository(metadata.repository),
            opt_documentation(metadata.documentation),
            crate::text::opt_text(metadata.homepage),
        );
    }
    let issues = validate_crate_metadata(metadata);
    metadata.publish_status == PublishStatus::Publishable && issues.len() == 0
}


/// Metadata that names a crate by the normalized form of `v`, points at the
/// repository and docs URLs expected for `v` and at the RustUse homepage has
/// no issues, provided that normalized name is valid and uses the `use-`
/// prefix.
pub proof fn lemma_default_metadata_is_clean(v: Seq<char>)
    requires
        valid_crate_name(normalized_crate_name(v)),
        has_use_prefix(normalized_crate_name(v)),
    ensures
        metadata_issues(
            normalized_crate_name(v),
            Some(repository_url_for(v)),
            Some(docs_url_for(v)),
            Some(rustuse_homepage()),
        ) =~= Seq::<Seq<char>>::empty(),
{
    lemma_valid_normalized_is_canonical(v);
    lemma_canonical_is_normalized(normalized_crate_name(v));
}


/// The kind of a crate from whether it has `src/lib.rs` and `src/main.rs`.
pub open spec fn crate_kind_for(has_lib: bool, has_main: bool) -> CrateKind {
    if has_lib && has_main {
        CrateKind::Mixed
    } else if has_lib {
        CrateKind::Library
    } else if has_main {
        CrateKind::Binary
    } else {
        CrateKind::Unknown
    }
}

/// The kind follows which of `src/lib.rs` and `src/main.rs` exist: mixed
/// with both, a library with the first only, a binary with the second only,
/// unknown with neither.
pub proof fn lemma_crate_kind_for(has_lib: bool, has_main: bool)
    ensures
        crate_kind_for(has_lib, has_main) == CrateKind::Mixed <==> has_lib && has_main,
        crate_kind_for(has_lib, has_main) == CrateKind::Library <==> has_lib && !has_main,
        crate_kind_for(has_lib, has_main) == CrateKind::Binary <==> !has_lib && has_main,
        crate_kind_for(has_lib, has_main) == CrateKind::Unknown <==> !has_lib && !has_main,
{
}

/// Metadata that describes a manifest document: its name is the normalized
/// `package.name`, its texts are the `package` strings, and its publish status
/// follows the `publish` key.
pub open spec fn metadata_describes(
    m: CrateMetadata,
    doc: crate::toml_doc::TomlNode,
    has_lib: bool,
    has_main: bool,
) -> bool {
    &&& m.name@ == normalized_crate_name(text_or_empty(package_text(doc, "name"@)))
    &&& m.kind == crate_kind_for(has_lib, has_main)
    &&& crate::text::opt_text(m.description) == package_text(doc, "description"@)
    &&& crate::text::opt_text(m.license) == package_text(doc, "license"@)
    &&& opt_repository(m.repository) == package_text(doc, "repository"@)
    &&& opt_documentation(m.documentation) == package_text(doc, "documentation"@)
    &&& crate::text::opt_text(m.homepage) == package_text(doc, "homepage"@)
    &&& (m.publish_status == PublishStatus::Publishable <==> manifest_publishable(doc))
}

/// Whether a manifest document names a crate whose normalized name is valid.
pub open spec fn document_names_valid_crate(doc: crate::toml_doc::TomlNode) -> bool {
    package_text(doc, "name"@) is Some && valid_crate_name(
        normalized_crate_name(text_or_empty(package_text(doc, "name"@))),
    )
}

/// An owned copy of an optional string slice.
fn owned_text(s: Option<&str>) -> (r: Option<String>)
    ensures
        crate::text::opt_text(r) == crate::text::opt_str_text(s),
{
    match s {
        Some(v) => Some(String::from_str(v)),
        None => None,
    }
}

impl CrateMetadata {
    /// Builds crate metadata from the root of a manifest document, given
    /// whether the crate root holds `src/lib.rs` and `src/main.rs`.
    pub fn from_manifest_document(document: &toml_edit::Item, has_lib: bool, has_main: bool) -> (r:
        Option<Self>)
        ensures
            r is Some <==> document_names_valid_crate(toml_item(*document)),
            r matches Some(m) ==> metadata_describes(m, toml_item(*document), has_lib, has_main),
            r matches Some(m) ==> (m.kind == CrateKind::Mixed <==> has_lib && has_main),
            r matches Some(m) ==> (m.kind == CrateKind::Library <==> has_lib && !has_main),
            r matches Some(m) ==> (m.kind == CrateKind::Binary <==> !has_lib && has_main),
            r matches Some(m) ==> (m.kind == CrateKind::Unknown <==> !has_lib && !has_main),
    {
        proof {
            lemma_crate_kind_for(has_lib, has_main);
        }
        let raw_name = match document_package_str(document, "name") {
            Some(n) => n,
            None => return None,
        };
        let name = match CrateName::new(raw_name) {
            Ok(n) => n,
            Err(_) => return None,
        };
        let kind = if has_lib && has_main {
            CrateKind::Mixed
        } else if has_lib {
            CrateKind::Library
        } else if has_main {
            CrateKind::Binary
        } else {
            CrateKind::Unknown
        };
        let repository = match document_package_str(document, "repository") {
            Some(url) => Some(RepositoryUrl::new(String::from_str(url))),
            None => None,
        };
        let documentation = match document_package_str(document, "documentation") {
            Some(url) => Some(DocumentationUrl::new(String::from_str(url))),
            None => None,
        };
        Some(CrateMetadata {
            name,
            kind,
            description: owned_text(document_package_str(document, "description")),
            license: owned_text(document_package_str(document, "license")),
            repository,
            documentation,
            homepage: owned_text(document_package_str(document, "homepage")),
            publish_status: if document_is_publishable(document) {
                PublishStatus::Publishable
            } else {
                PublishStatus::Unpublishable
            },
        })
    }
}

} // verus!
