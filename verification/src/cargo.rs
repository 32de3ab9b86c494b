//! Cargo manifests and workspaces: manifest fields, dependencies, features,
//! publishability, and workspace member listings.

use vstd::prelude::*;
use vstd::multiset::Multiset;
use crate::text::{copy_string, same_text, opt_text, opt_str_text, concat_text, has_prefix};
use crate::identity::texts;
use crate::sorting::{text_le, text_less_or_equal, lemma_text_le_total, lemma_text_le_transitive,
    lemma_text_le_reflexive,
    sort_strings, texts_sorted, string_texts};
use crate::toml_doc::{
    TomlNode, toml_item, toml_error_message, node_get, node_str, node_bool, strings_of, entries_model, parse_toml,
    item_get, item_as_str, item_as_bool, item_array_len, item_table_entries, array_strings,
};

verus! {

broadcast use vstd::seq_lib::group_seq_properties;

#[verifier::external_type_specification]
#[verifier::external_body]
pub struct ExIoError(std::io::Error);

#[verifier::external_type_specification]
#[verifier::external_body]
pub struct ExPathBuf(std::path::PathBuf);

#[verifier::external_type_specification]
#[verifier::external_body]
pub struct ExMetadataError(cargo_metadata::Error);

/// A UTF-8 `Cargo.toml` path.
#[derive(Clone, Debug, PartialEq, Eq, Hash)]
pub struct ManifestPath(String);

impl View for ManifestPath {
    type V = Seq<char>;

    closed spec fn view(&self) -> Seq<char> {
        self.0@
    }
}

impl ManifestPath {
    /// Wraps the text of a UTF-8 manifest path.
    pub fn from_utf8(path: String) -> (r: Self)
        ensures
            r@ == path@,
    {
        ManifestPath(path)
    }

    /// Returns the manifest path text.
    pub fn as_str(&self) -> (r: &str)
        ensures
            r@ == self@,
    {
        self.0.as_str()
    }

    /// The path text (what `Display` shows).
    pub fn to_string(&self) -> (r: String)
        ensures
            r@ == self@,
    {
        copy_string(&self.0)
    }

    /// A copy of the path.
    pub fn duplicate(&self) -> (r: Self)
        ensures
            r@ == self@,
    {
        ManifestPath(copy_string(&self.0))
    }
}

/// A UTF-8 Cargo workspace root path.
#[derive(Clone, Debug, PartialEq, Eq, Hash)]
pub struct WorkspaceRoot(String);

impl View for WorkspaceRoot {
    type V = Seq<char>;

    closed spec fn view(&self) -> Seq<char> {
        self.0@
    }
}

impl WorkspaceRoot {
    /// Wraps the text of a UTF-8 workspace root path.
    pub fn from_utf8(path: String) -> (r: Self)
        ensures
            r@ == path@,
    {
        WorkspaceRoot(path)
    }

    /// Returns the workspace root path text.
    pub fn as_str(&self) -> (r: &str)
        ensures
            r@ == self@,
    {
        self.0.as_str()
    }

    /// The path text (what `Display` shows).
    pub fn to_string(&self) -> (r: String)
        ensures
            r@ == self@,
    {
        copy_string(&self.0)
    }
}

/// Known Cargo editions plus a fallback for unknown future values.
#[derive(Clone, Debug, PartialEq, Eq)]
pub enum CargoEdition {
    E2015,
    E2018,
    E2021,
    E2024,
    Other(String),
}

/// Whether a text names one of the known editions.
pub open spec fn known_edition_text(s: Seq<char>) -> bool {
    s == "2015"@ || s == "2018"@ || s == "2021"@ || s == "2024"@
}

impl View for CargoEdition {
    type V = Seq<char>;

    open spec fn view(&self) -> Seq<char> {
        match self {
            CargoEdition::E2015 => "2015"@,
            CargoEdition::E2018 => "2018"@,
            CargoEdition::E2021 => "2021"@,
            CargoEdition::E2024 => "2024"@,
            CargoEdition::Other(v) => v@,
        }
    }
}

/// What `CargoEdition::parse` gives for a text: the known edition of that
/// name, or `Other` holding the text.
pub open spec fn edition_parsed_from(e: CargoEdition, s: Seq<char>) -> bool {
    &&& e@ == s
    &&& (e is E2015 <==> s == "2015"@)
    &&& (e is E2018 <==> s == "2018"@)
    &&& (e is E2021 <==> s == "2021"@)
    &&& (e is E2024 <==> s == "2024"@)
    &&& (e is Other <==> !known_edition_text(s))
}

proof fn lemma_edition_texts_distinct()
    ensures
        "2015"@ != "2018"@,
        "2015"@ != "2021"@,
        "2015"@ != "2024"@,
        "2018"@ != "2021"@,
        "2018"@ != "2024"@,
        "2021"@ != "2024"@,
{
    reveal_strlit("2015");
    reveal_strlit("2018");
    reveal_strlit("2021");
    reveal_strlit("2024");
    assert("2015"@[3] != "2018"@[3]);
    assert("2015"@[2] != "2021"@[2]);
    assert("2015"@[2] != "2024"@[2]);
    assert("2018"@[2] != "2021"@[2]);
    assert("2018"@[2] != "2024"@[2]);
    assert("2021"@[3] != "2024"@[3]);
}

impl CargoEdition {
    /// Parses a Cargo edition string.
    pub fn parse(value: &str) -> (r: Self)
        ensures
            edition_parsed_from(r, value@),
    {
        proof {
            lemma_edition_texts_distinct();
        }
        if same_text(value, "2015") {
            CargoEdition::E2015
        } else if same_text(value, "2018") {
            CargoEdition::E2018
        } else if same_text(value, "2021") {
            CargoEdition::E2021
        } else if same_text(value, "2024") {
            CargoEdition::E2024
        } else {
            CargoEdition::Other(String::from_str(value))
        }
    }

    /// Returns the edition as a string slice.
    pub fn as_str(&self) -> (r: &str)
        ensures
            r@ == self@,
    {
        match self {
            CargoEdition::E2015 => "2015",
            CargoEdition::E2018 => "2018",
            CargoEdition::E2021 => "2021",
            CargoEdition::E2024 => "2024",
            CargoEdition::Other(value) => value.as_str(),
        }
    }
}

/// Parsing the text of an edition gives that edition back, unless it is an
/// `Other` that holds the name of a known edition.
pub proof fn lemma_edition_text_round_trip(e: CargoEdition, parsed: CargoEdition)
    requires
        edition_parsed_from(parsed, e@),
        !(e is Other && known_edition_text(e@)),
    ensures
        parsed@ == e@,
        parsed is E2015 <==> e is E2015,
        parsed is E2018 <==> e is E2018,
        parsed is E2021 <==> e is E2021,
        parsed is E2024 <==> e is E2024,
        parsed is Other <==> e is Other,
{
    lemma_edition_texts_distinct();
}

/// A lightweight dependency description from `Cargo.toml`.
#[derive(Clone, Debug, PartialEq, Eq)]
pub struct CargoDependency {
    pub name: String,
    pub requirement: Option<String>,
    pub optional: bool,
}

/// A lightweight Cargo feature definition.
#[derive(Clone, Debug, PartialEq, Eq)]
pub struct CargoFeature {
    pub name: String,
    pub members: Vec<String>,
}

/// A lightweight workspace package description.
#[derive(Clone, Debug, PartialEq, Eq)]
pub struct CargoPackage {
    pub name: String,
    pub version: Option<String>,
    pub manifest_path: ManifestPath,
    pub publishable: bool,
}

/// The text held by an optional text, empty when there is none.
pub open spec fn text_or_empty(t: Option<Seq<char>>) -> Seq<char> {
    match t {
        Some(s) => s,
        None => Seq::empty(),
    }
}

/// The item under `[package].<field>`.
pub open spec fn package_entry(doc: TomlNode, field: Seq<char>) -> Option<TomlNode> {
    match node_get(doc, "package"@) {
        Some(package) => node_get(package, field),
        None => None,
    }
}

/// The text of the string under `[package].<field>`.
pub open spec fn package_text(doc: TomlNode, field: Seq<char>) -> Option<Seq<char>> {
    match package_entry(doc, field) {
        Some(item) => node_str(item),
        None => None,
    }
}

/// Whether the manifest allows publishing: no `publish` key, `publish = true`,
/// a non-empty registry list, or any other value; `publish = false` or an
/// empty list forbid it.
pub open spec fn manifest_publishable(doc: TomlNode) -> bool {
    match package_entry(doc, "publish"@) {
        None => true,
        Some(item) => match item {
            TomlNode::Bool(b) => b,
            TomlNode::Array(values) => values.len() > 0,
            _ => true,
        },
    }
}

/// The workspace members listed as strings in `[workspace].members`.
pub open spec fn workspace_member_texts(doc: TomlNode) -> Seq<Seq<char>> {
    match node_get(doc, "workspace"@) {
        Some(workspace) => match node_get(workspace, "members"@) {
            Some(TomlNode::Array(values)) => strings_of(values),
            _ => Seq::empty(),
        },
        None => Seq::empty(),
    }
}

/// The requirement of a dependency entry: the string itself, or the string
/// under its `version` key.
pub open spec fn dependency_requirement_text(item: TomlNode) -> Option<Seq<char>> {
    match item {
        TomlNode::Str(s) => Some(s),
        _ => match node_get(item, "version"@) {
            Some(v) => node_str(v),
            None => None,
        },
    }
}

/// Whether a dependency entry says `optional = true`.
pub open spec fn dependency_is_optional(item: TomlNode) -> bool {
    match node_get(item, "optional"@) {
        Some(TomlNode::Bool(b)) => b,
        _ => false,
    }
}

/// The entries of the table under a top-level key (empty when there is no
/// such table).
pub open spec fn table_entries_under(doc: TomlNode, key: Seq<char>) -> Seq<(Seq<char>, TomlNode)> {
    match node_get(doc, key) {
        Some(TomlNode::Table(entries)) => entries,
        _ => Seq::empty(),
    }
}

/// The members of a feature entry: the strings of its array.
pub open spec fn feature_member_texts(item: TomlNode) -> Seq<Seq<char>> {
    match item {
        TomlNode::Array(values) => strings_of(values),
        _ => Seq::empty(),
    }
}

/// A dependency that describes the given entry.
pub open spec fn dependency_describes(d: CargoDependency, entry: (Seq<char>, TomlNode)) -> bool {
    &&& d.name@ == entry.0
    &&& opt_text(d.requirement) == dependency_requirement_text(entry.1)
    &&& d.optional == dependency_is_optional(entry.1)
}

/// A feature that describes the given entry.
pub open spec fn feature_describes(f: CargoFeature, entry: (Seq<char>, TomlNode)) -> bool {
    &&& f.name@ == entry.0
    &&& texts(f.members@) == feature_member_texts(entry.1)
}

/// The `[package].<field>` item of a document root.
pub fn document_package_item<'a>(document: &'a toml_edit::Item, field: &str) -> (r: Option<
    &'a toml_edit::Item,
>)
    ensures
        crate::toml_doc::opt_node(r) == package_entry(toml_item(*document), field@),
{
    match item_get(document, "package") {
        Some(package) => item_get(package, field),
        None => None,
    }
}

/// The `[package].<field>` string of a document root.
pub fn document_package_str<'a>(document: &'a toml_edit::Item, field: &str) -> (r: Option<&'a str>)
    ensures
        opt_str_text(r) == package_text(toml_item(*document), field@),
{
    match document_package_item(document, field) {
        Some(item) => item_as_str(item),
        None => None,
    }
}

/// Whether a document root allows publishing.
pub fn document_is_publishable(document: &toml_edit::Item) -> (r: bool)
    ensures
        r == manifest_publishable(toml_item(*document)),
{
    proof {
        reveal_strlit("publish");
    }
    match document_package_item(document, "publish") {
        None => true,
        Some(item) => match item_as_bool(item) {
            Some(b) => b,
            None => match item_array_len(item) {
                Some(n) => n != 0,
                None => true,
            },
        },
    }
}

/// A parsed Cargo manifest.
#[derive(Clone, Debug)]
pub struct CargoManifest {
    path: ManifestPath,
    document: toml_edit::Item,
}

impl CargoManifest {
    /// The model of the manifest's TOML document.
    pub closed spec fn document_model(&self) -> TomlNode {
        toml_item(self.document)
    }

    /// The manifest path.
    pub closed spec fn path_text(&self) -> Seq<char> {
        self.path@
    }

    /// Parses the contents of the manifest found at `path`.
    pub fn from_text(path: ManifestPath, contents: &str) -> (r: Result<Self, CargoManifestError>)
        ensures
            r is Ok <==> crate::toml_doc::toml_parse(contents@) is Ok,
            r matches Ok(m) ==> crate::toml_doc::toml_parse(contents@)
                == crate::toml_doc::toml_parsed(m.document_model())
                && m.path_text() == path@,
            r matches Err(e) ==> e is ParseToml,
            r matches Err(e) ==> (e matches CargoManifestError::ParseToml(te)
                && crate::toml_doc::toml_parse(contents@) == crate::toml_doc::toml_rejected(
                toml_error_message(te),
            )),
    {
        match parse_toml(contents) {
            Ok(document) => Ok(CargoManifest { path, document }),
            Err(error) => Err(CargoManifestError::ParseToml(error)),
        }
    }

    /// Returns the parsed manifest path.
    pub fn path(&self) -> (r: &ManifestPath)
        ensures
            r@ == self.path_text(),
    {
        &self.path
    }

    fn package_str(&self, field: &str) -> (r: Option<&str>)
        ensures
            opt_str_text(r) == package_text(self.document_model(), field@),
    {
        document_package_str(&self.document, field)
    }

    /// Returns `package.name` when present.
    pub fn package_name(&self) -> (r: Option<&str>)
        ensures
            opt_str_text(r) == package_text(self.document_model(), "name"@),
    {
        self.package_str("name")
    }

    /// Returns `package.version` when present.
    pub fn package_version(&self) -> (r: Option<&str>)
        ensures
            opt_str_text(r) == package_text(self.document_model(), "version"@),
    {
        self.package_str("version")
    }

    /// Returns `package.edition` when present.
    pub fn edition(&self) -> (r: Option<CargoEdition>)
        ensures
            r is Some <==> package_text(self.document_model(), "edition"@) is Some,
            r matches Some(e) ==> edition_parsed_from(
                e,
                text_or_empty(package_text(self.document_model(), "edition"@)),
            ),
    {
        match self.package_str("edition") {
            Some(text) => Some(CargoEdition::parse(text)),
            None => None,
        }
    }

    /// Returns `package.repository` when present.
    pub fn repository(&self) -> (r: Option<&str>)
        ensures
            opt_str_text(r) == package_text(self.document_model(), "repository"@),
    {
        self.package_str("repository")
    }

    /// Returns `package.documentation` when present.
    pub fn documentation(&self) -> (r: Option<&str>)
        ensures
            opt_str_text(r) == package_text(self.document_model(), "documentation"@),
    {
        self.package_str("documentation")
    }

    /// Returns `package.homepage` when present.
    pub fn homepage(&self) -> (r: Option<&str>)
        ensures
            opt_str_text(r) == package_text(self.document_model(), "homepage"@),
    {
        self.package_str("homepage")
    }

    /// Returns `package.description` when present.
    pub fn description(&self) -> (r: Option<&str>)
        ensures
            opt_str_text(r) == package_text(self.document_model(), "description"@),
    {
        self.package_str("description")
    }

    /// Returns `package.license` when present.
    pub fn license(&self) -> (r: Option<&str>)
        ensures
            opt_str_text(r) == package_text(self.document_model(), "license"@),
    {
        self.package_str("license")
    }

    /// Returns `package.readme` when present.
    pub fn readme(&self) -> (r: Option<&str>)
        ensures
            opt_str_text(r) == package_text(self.document_model(), "readme"@),
    {
        self.package_str("readme")
    }

    /// Returns `true` when the manifest contains a `[workspace]` table.
    pub fn is_workspace(&self) -> (r: bool)
        ensures
            r == node_get(self.document_model(), "workspace"@) is Some,
    {
        item_get(&self.document, "workspace").is_some()
    }

    /// Returns the workspace members declared in `[workspace].members`.
    pub fn workspace_members(&self) -> (r: Vec<String>)
        ensures
            texts(r@) == workspace_member_texts(self.document_model()),
    {
        proof {
            reveal_strlit("workspace");
            reveal_strlit("members");
        }
        match item_get(&self.document, "workspace") {
            Some(workspace) => match item_get(workspace, "members") {
                Some(members) => array_strings(members),
                None => Vec::new(),
            },
            None => Vec::new(),
        }
    }

    /// Returns dependency entries from `[dependencies]`.
    pub fn dependencies(&self) -> (r: Vec<CargoDependency>)
        ensures
            r@.len() == table_entries_under(self.document_model(), "dependencies"@).len(),
            forall|i: int|
                0 <= i < r@.len() ==> dependency_describes(
                    #[trigger] r@[i],
                    table_entries_under(self.document_model(), "dependencies"@)[i],
                ),
    {
        let mut out: Vec<CargoDependency> = Vec::new();
        let table = match item_get(&self.document, "dependencies") {
            Some(t) => t,
            None => return out,
        };
        let entries = match item_table_entries(table) {
            Some(e) => e,
            None => return out,
        };
        let ghost model = table_entries_under(self.document_model(), "dependencies"@);
        let n = entries.len();
        for i in 0..n
            invariant
                n == entries@.len(),
                entries_model(entries@) == model,
                out@.len() == i,
                forall|k: int| 0 <= k < i ==> dependency_describes(#[trigger] out@[k], model[k]),
        {
            let (name, item) = entries[i];
            let requirement = dependency_requirement(item);
            let optional = dependency_optional(item);
            out.push(CargoDependency { name: String::from_str(name), requirement, optional });
            assert(model[i as int] == (name@, toml_item(*item)));
        }
        out
    }

    /// Returns feature entries from `[features]`.
    pub fn features(&self) -> (r: Vec<CargoFeature>)
        ensures
            r@.len() == table_entries_under(self.document_model(), "features"@).len(),
            forall|i: int|
                0 <= i < r@.len() ==> feature_describes(
                    #[trigger] r@[i],
                    table_entries_under(self.document_model(), "features"@)[i],
                ),
    {
        let mut out: Vec<CargoFeature> = Vec::new();
        let table = match item_get(&self.document, "features") {
            Some(t) => t,
            None => return out,
        };
        let entries = match item_table_entries(table) {
            Some(e) => e,
            None => return out,
        };
        let ghost model = table_entries_under(self.document_model(), "features"@);
        let n = entries.len();
        for i in 0..n
            invariant
                n == entries@.len(),
                entries_model(entries@) == model,
                out@.len() == i,
                forall|k: int| 0 <= k < i ==> feature_describes(#[trigger] out@[k], model[k]),
        {
            let (name, item) = entries[i];
            let members = array_strings(item);
            out.push(CargoFeature { name: String::from_str(name), members });
            assert(model[i as int] == (name@, toml_item(*item)));
        }
        out
    }

    /// Returns `true` when the package should be considered publishable.
    pub fn is_publishable(&self) -> (r: bool)
        ensures
            r == manifest_publishable(self.document_model()),
    {
        document_is_publishable(&self.document)
    }

    /// The root item of the manifest's TOML document.
    pub fn document(&self) -> (r: &toml_edit::Item)
        ensures
            toml_item(*r) == self.document_model(),
    {
        &self.document
    }
}

/// The requirement of a dependency entry.
fn dependency_requirement(item: &toml_edit::Item) -> (r: Option<String>)
    ensures
        opt_text(r) == dependency_requirement_text(toml_item(*item)),
{
    proof {
        reveal_strlit("version");
    }
    match item_as_str(item) {
        Some(text) => Some(String::from_str(text)),
        None => match item_get(item, "version") {
            Some(version) => match item_as_str(version) {
                Some(text) => Some(String::from_str(text)),
                None => None,
            },
            None => None,
        },
    }
}

/// Whether a dependency entry is optional.
fn dependency_optional(item: &toml_edit::Item) -> (r: bool)
    ensures
        r == dependency_is_optional(toml_item(*item)),
{
    match item_get(item, "optional") {
        Some(flag) => match item_as_bool(flag) {
            Some(b) => b,
            None => false,
        },
        None => false,
    }
}

/// Returns `true` when a manifest contains a `[workspace]` table.
pub fn is_workspace(manifest: &CargoManifest) -> (r: bool)
    ensures
        r == node_get(manifest.document_model(), "workspace"@) is Some,
{
    manifest.is_workspace()
}

/// Errors that can occur while working with `Cargo.toml` manifests.
#[derive(Debug)]
pub enum CargoManifestError {
    Io(std::io::Error),
    NotFound(std::path::PathBuf),
    NonUtf8Path(std::path::PathBuf),
    ParseToml(toml_edit::TomlError),
}

/// Errors that can occur while discovering a Cargo workspace.
#[derive(Debug)]
pub enum CargoWorkspaceError {
    Manifest(CargoManifestError),
    Metadata(cargo_metadata::Error),
    NonUtf8Path(std::path::PathBuf),
    NotFound(std::path::PathBuf),
}

/// `Display` of `std::io::Error`: the message of a failed read. Nothing is
/// stated of it (it comes from the operating system).
#[verifier::external_body]
fn io_error_text(error: &std::io::Error) -> String {
    format!("{error}")
}

/// What `Path::display` shows for a path: its text, with any bytes that are
/// not UTF-8 replaced.
pub uninterp spec fn path_display(path: std::path::PathBuf) -> Seq<char>;

/// `Display` of `toml_edit::TomlError`: the parser's description of what is
/// wrong and where, a function of the error alone.
#[verifier::external_body]
fn toml_error_text(error: &toml_edit::TomlError) -> (r: String)
    ensures
        r@ == toml_error_message(*error),
{
    format!("{error}")
}

/// `Path::display`: the path as text, with any bytes that are not UTF-8
/// replaced; a function of the path alone.
#[verifier::external_body]
fn path_text(path: &std::path::PathBuf) -> (r: String)
    ensures
        r@ == path_display(*path),
{
    format!("{}", path.display())
}

/// `Display` of `cargo_metadata::Error`: why `cargo metadata` failed. Nothing
/// is stated of it: for a failure to start the command it includes the
/// operating system's message.
#[verifier::external_body]
fn metadata_error_text(error: &cargo_metadata::Error) -> String {
    format!("{error}")
}

/// The fixed start of the message of a manifest error.
pub open spec fn manifest_error_prefix(error: CargoManifestError) -> Seq<char> {
    match error {
        CargoManifestError::Io(_) => "failed to read Cargo manifest: "@,
        CargoManifestError::NotFound(_) => "no Cargo.toml found at "@,
        CargoManifestError::NonUtf8Path(_) => "path is not valid UTF-8: "@,
        CargoManifestError::ParseToml(_) => "failed to parse Cargo manifest: "@,
    }
}

/// The whole message of a manifest error, where it does not rest on the
/// operating system: the fixed text, then the path as displayed or the TOML
/// parser's message (`None` for a failed read).
pub open spec fn manifest_error_text(error: CargoManifestError) -> Option<Seq<char>> {
    match error {
        CargoManifestError::Io(_) => None,
        CargoManifestError::NotFound(path) => Some("no Cargo.toml found at "@ + path_display(path)),
        CargoManifestError::NonUtf8Path(path) => Some(
            "path is not valid UTF-8: "@ + path_display(path),
        ),
        CargoManifestError::ParseToml(e) => Some(
            "failed to parse Cargo manifest: "@ + toml_error_message(e),
        ),
    }
}

impl CargoManifestError {
    /// The error message (what `Display` shows): a fixed text for the kind of
    /// error, then the outside error's message or the path.
    pub fn to_string(&self) -> (r: String)
        ensures
            has_prefix(r@, manifest_error_prefix(*self)),
            manifest_error_text(*self) is Some ==> r@ == manifest_error_text(*self).unwrap(),
    {
        match self {
            CargoManifestError::Io(error) => {
                let detail = io_error_text(error);
                concat_text("failed to read Cargo manifest: ", detail.as_str())
            },
            CargoManifestError::NotFound(path) => {
                let detail = path_text(path);
                concat_text("no Cargo.toml found at ", detail.as_str())
            },
            CargoManifestError::NonUtf8Path(path) => {
                let detail = path_text(path);
                concat_text("path is not valid UTF-8: ", detail.as_str())
            },
            CargoManifestError::ParseToml(error) => {
                let detail = toml_error_text(error);
                concat_text("failed to parse Cargo manifest: ", detail.as_str())
            },
        }
    }
}

/// The fixed start of the message of a workspace error; for a manifest
/// error, the start of the manifest error's own message follows.
pub open spec fn workspace_error_prefix(error: CargoWorkspaceError) -> Seq<char> {
    match error {
        CargoWorkspaceError::Manifest(inner) => "failed to inspect manifest: "@
            + manifest_error_prefix(inner),
        CargoWorkspaceError::Metadata(_) => "failed to query cargo metadata: "@,
        CargoWorkspaceError::NonUtf8Path(_) => "path is not valid UTF-8: "@,
        CargoWorkspaceError::NotFound(_) => "no workspace root found from "@,
    }
}

/// The whole message of a workspace error, where it does not rest on the
/// operating system: the fixed text, then the path as displayed or the whole
/// message of the manifest error (`None` when that has none, and for a
/// failure of `cargo metadata`).
pub open spec fn workspace_error_text(error: CargoWorkspaceError) -> Option<Seq<char>> {
    match error {
        CargoWorkspaceError::Manifest(inner) => match manifest_error_text(inner) {
            Some(t) => Some("failed to inspect manifest: "@ + t),
            None => None,
        },
        CargoWorkspaceError::Metadata(_) => None,
        CargoWorkspaceError::NonUtf8Path(path) => Some(
            "path is not valid UTF-8: "@ + path_display(path),
        ),
        CargoWorkspaceError::NotFound(path) => Some(
            "no workspace root found from "@ + path_display(path),
        ),
    }
}

impl CargoWorkspaceError {
    /// The error message (what `Display` shows).
    pub fn to_string(&self) -> (r: String)
        ensures
            has_prefix(r@, workspace_error_prefix(*self)),
            workspace_error_text(*self) is Some ==> r@ == workspace_error_text(*self).unwrap(),
    {
        match self {
            CargoWorkspaceError::Manifest(error) => {
                let detail = error.to_string();
                let r = concat_text("failed to inspect manifest: ", detail.as_str());
                proof {
                    let p = "failed to inspect manifest: "@;
                    let q = manifest_error_prefix(*error);
                    assert(r@.take((p + q).len() as int) =~= p + detail@.take(q.len() as int));
                }
                r
            },
            CargoWorkspaceError::Metadata(error) => {
                let detail = metadata_error_text(error);
                concat_text("failed to query cargo metadata: ", detail.as_str())
            },
            CargoWorkspaceError::NonUtf8Path(path) => {
                let detail = path_text(path);
                concat_text("path is not valid UTF-8: ", detail.as_str())
            },
            CargoWorkspaceError::NotFound(path) => {
                let detail = path_text(path);
                concat_text("no workspace root found from ", detail.as_str())
            },
        }
    }
}

/// What the workspace error for a manifest error is: a missing manifest is a
/// missing workspace, anything else stays a manifest error.
pub open spec fn workspace_error_for(error: CargoManifestError) -> CargoWorkspaceError {
    match error {
        CargoManifestError::NotFound(path) => CargoWorkspaceError::NotFound(path),
        other => CargoWorkspaceError::Manifest(other),
    }
}

impl From<CargoManifestError> for CargoWorkspaceError {
    fn from(error: CargoManifestError) -> (r: Self) {
        match error {
            CargoManifestError::NotFound(path) => CargoWorkspaceError::NotFound(path),
            other => CargoWorkspaceError::Manifest(other),
        }
    }
}

impl vstd::std_specs::convert::FromSpecImpl<CargoManifestError> for CargoWorkspaceError {
    open spec fn obeys_from_spec() -> bool {
        true
    }

    open spec fn from_spec(error: CargoManifestError) -> Self {
        workspace_error_for(error)
    }
}

impl From<cargo_metadata::Error> for CargoWorkspaceError {
    fn from(error: cargo_metadata::Error) -> (r: Self) {
        CargoWorkspaceError::Metadata(error)
    }
}

impl vstd::std_specs::convert::FromSpecImpl<cargo_metadata::Error> for CargoWorkspaceError {
    open spec fn obeys_from_spec() -> bool {
        true
    }

    open spec fn from_spec(error: cargo_metadata::Error) -> Self {
        CargoWorkspaceError::Metadata(error)
    }
}

impl From<std::io::Error> for CargoManifestError {
    fn from(error: std::io::Error) -> (r: Self) {
        CargoManifestError::Io(error)
    }
}

impl vstd::std_specs::convert::FromSpecImpl<std::io::Error> for CargoManifestError {
    open spec fn obeys_from_spec() -> bool {
        true
    }

    open spec fn from_spec(error: std::io::Error) -> Self {
        CargoManifestError::Io(error)
    }
}

impl From<toml_edit::TomlError> for CargoManifestError {
    fn from(error: toml_edit::TomlError) -> (r: Self) {
        CargoManifestError::ParseToml(error)
    }
}

impl vstd::std_specs::convert::FromSpecImpl<toml_edit::TomlError> for CargoManifestError {
    open spec fn obeys_from_spec() -> bool {
        true
    }

    open spec fn from_spec(error: toml_edit::TomlError) -> Self {
        CargoManifestError::ParseToml(error)
    }
}

/// The next move of a search for the nearest `Cargo.toml`, walking up from a
/// directory.
#[derive(Clone, Copy, Debug, PartialEq, Eq, Structural)]
pub enum SearchStep {
    /// The current directory holds what is searched for.
    Found,
    /// Continue with the parent directory.
    Ascend,
    /// There is no parent left: the search fails.
    Exhausted,
}

/// The next move of `find_manifest`: stop at a directory whose `Cargo.toml`
/// is a file, else go up while there is a parent.
pub fn manifest_search_step(candidate_is_file: bool, has_parent: bool) -> (r: SearchStep)
    ensures
        r == (if candidate_is_file {
            SearchStep::Found
        } else if has_parent {
            SearchStep::Ascend
        } else {
            SearchStep::Exhausted
        }),
{
    if candidate_is_file {
        SearchStep::Found
    } else if has_parent {
        SearchStep::Ascend
    } else {
        SearchStep::Exhausted
    }
}

/// Whether a manifest was parsed and has a `[workspace]` table.
pub open spec fn manifest_has_workspace(manifest: Option<&CargoManifest>) -> bool {
    match manifest {
        Some(m) => node_get(m.document_model(), "workspace"@) is Some,
        None => false,
    }
}

/// The next move of `find_workspace_root`: stop at a directory whose
/// `Cargo.toml` (parsed as `manifest`, when it is a file) has a `[workspace]`
/// table, else go up while there is a parent.
pub fn workspace_search_step(manifest: Option<&CargoManifest>, has_parent: bool) -> (r: SearchStep)
    ensures
        r == (if manifest_has_workspace(manifest) {
            SearchStep::Found
        } else if has_parent {
            SearchStep::Ascend
        } else {
            SearchStep::Exhausted
        }),
{
    let found = match manifest {
        Some(m) => m.is_workspace(),
        None => false,
    };
    if found {
        SearchStep::Found
    } else if has_parent {
        SearchStep::Ascend
    } else {
        SearchStep::Exhausted
    }
}

/// Which file a manifest is read from, for a path given to read one.
#[derive(Clone, Copy, Debug, PartialEq, Eq, Structural)]
pub enum ManifestCandidate {
    /// `Cargo.toml` inside the given path, a directory.
    InDirectory,
    /// The given path itself.
    Itself,
}

/// Which file a manifest is read from: `Cargo.toml` inside the path when it
/// is a directory, else the path itself.
pub fn manifest_candidate(is_dir: bool) -> (r: ManifestCandidate)
    ensures
        r == (if is_dir {
            ManifestCandidate::InDirectory
        } else {
            ManifestCandidate::Itself
        }),
{
    if is_dir {
        ManifestCandidate::InDirectory
    } else {
        ManifestCandidate::Itself
    }
}

/// Where a search for a manifest or a workspace root starts.
#[derive(Clone, Copy, Debug, PartialEq, Eq, Structural)]
pub enum SearchStart {
    /// The given path, a directory.
    Itself,
    /// The directory that holds the given path.
    Parent,
    /// The current directory `.`, for a path without a parent.
    CurrentDir,
}

/// Where a search starts: the path itself when it is a directory, else its
/// parent, else the current directory.
pub fn normalize_search_start(is_dir: bool, has_parent: bool) -> (r: SearchStart)
    ensures
        r == (if is_dir {
            SearchStart::Itself
        } else if has_parent {
            SearchStart::Parent
        } else {
            SearchStart::CurrentDir
        }),
{
    if is_dir {
        SearchStart::Itself
    } else if has_parent {
        SearchStart::Parent
    } else {
        SearchStart::CurrentDir
    }
}

/// Packages in non-decreasing order of name.
pub open spec fn packages_sorted(s: Seq<CargoPackage>) -> bool {
    forall|i: int, j: int| 0 <= i < j < s.len() ==> text_le(#[trigger] s[i].name@, #[trigger] s[j].name@)
}

/// The packages called `name` among `s`, in order.
pub open spec fn packages_named(s: Seq<CargoPackage>, name: Seq<char>) -> Seq<CargoPackage>
    decreases s.len(),
{
    if s.len() == 0 {
        Seq::empty()
    } else {
        let rest = packages_named(s.drop_last(), name);
        if s.last().name@ == name {
            rest.push(s.last())
        } else {
            rest
        }
    }
}

proof fn lemma_packages_named_concat(a: Seq<CargoPackage>, b: Seq<CargoPackage>, name: Seq<char>)
    ensures
        packages_named(a + b, name) == packages_named(a, name) + packages_named(b, name),
    decreases b.len(),
{
    if b.len() == 0 {
        assert(a + b =~= a);
        assert(packages_named(a, name) + packages_named(b, name) =~= packages_named(a, name));
    } else {
        lemma_packages_named_concat(a, b.drop_last(), name);
        assert((a + b).drop_last() =~= a + b.drop_last());
        assert((a + b).last() == b.last());
        if b.last().name@ == name {
            assert(packages_named(a + b, name) =~= packages_named(a, name) + packages_named(
                b,
                name,
            ));
        }
    }
}

proof fn lemma_packages_named_none(s: Seq<CargoPackage>, name: Seq<char>)
    requires
        forall|k: int| 0 <= k < s.len() ==> #[trigger] s[k].name@ != name,
    ensures
        packages_named(s, name) == Seq::<CargoPackage>::empty(),
    decreases s.len(),
{
    if s.len() > 0 {
        lemma_packages_named_none(s.drop_last(), name);
    }
}

/// Inserts a package after every package whose name is not above its own.
fn insert_sorted_package(out: &mut Vec<CargoPackage>, x: CargoPackage)
    requires
        packages_sorted(old(out)@),
    ensures
        packages_sorted(final(out)@),
        final(out)@.to_multiset() == old(out)@.to_multiset().insert(x),
        forall|name: Seq<char>|
            #[trigger] packages_named(final(out)@, name) == packages_named(old(out)@, name)
                + packages_named(seq![x], name),
{
    let mut p = out.len();
    while p > 0 && !text_less_or_equal(out[p - 1].name.as_str(), x.name.as_str())
        invariant
            p <= out@.len(),
            packages_sorted(out@),
            forall|k: int| p <= k < out@.len() ==> !text_le(#[trigger] out@[k].name@, x.name@),
        decreases p,
    {
        p = p - 1;
    }
    let ghost before = out@;
    proof {
        assert forall|k: int| 0 <= k < p implies text_le(#[trigger] before[k].name@, x.name@) by {
            if k < p - 1 {
                assert(text_le(before[k].name@, before[p - 1].name@));
                lemma_text_le_transitive(before[k].name@, before[p - 1].name@, x.name@);
            }
        }
        assert forall|k: int| p <= k < before.len() implies text_le(
            x.name@,
            #[trigger] before[k].name@,
        ) by {
            lemma_text_le_total(before[k].name@, x.name@);
        }
    }
    out.insert(p, x);
    proof {
        let t = out@;
        assert forall|i: int, j: int| 0 <= i < j < t.len() implies text_le(
            #[trigger] t[i].name@,
            #[trigger] t[j].name@,
        ) by {
            if j < p {
                assert(text_le(before[i].name@, before[j].name@));
            } else if j == p {
                assert(t[i] == before[i]);
            } else if i == p {
                assert(t[j] == before[j - 1]);
            } else if i < p {
                assert(text_le(before[i].name@, before[j - 1].name@));
            } else {
                assert(text_le(before[i - 1].name@, before[j - 1].name@));
            }
        }
        vstd::seq_lib::to_multiset_insert(before, p as int, x);
        let head = before.take(p as int);
        let tail = before.skip(p as int);
        assert(before =~= head + tail);
        assert(t =~= head + seq![x] + tail);
        assert forall|k: int| 0 <= k < tail.len() implies #[trigger] tail[k].name@ != x.name@ by {
            assert(tail[k] == before[p + k]);
            lemma_text_le_reflexive(x.name@);
        }
        assert forall|name: Seq<char>|
            #[trigger] packages_named(t, name) == packages_named(before, name) + packages_named(
                seq![x],
                name,
            ) by {
            lemma_packages_named_concat(head + seq![x], tail, name);
            lemma_packages_named_concat(head, seq![x], name);
            lemma_packages_named_concat(head, tail, name);
            lemma_packages_named_concat(head, seq![x], name);
            if name == x.name@ {
                lemma_packages_named_none(tail, name);
                assert(packages_named(t, name) =~= packages_named(before, name)
                    + packages_named(seq![x], name));
            } else {
                assert(seq![x].drop_last() =~= Seq::<CargoPackage>::empty());
                assert(packages_named(seq![x], name) =~= Seq::<CargoPackage>::empty());
                assert(packages_named(t, name) =~= packages_named(before, name)
                    + packages_named(seq![x], name));
            }
        }
    }
}

/// Sorts packages by name, keeping packages of equal names in their order.
fn sort_packages(items: Vec<CargoPackage>) -> (r: Vec<CargoPackage>)
    ensures
        packages_sorted(r@),
        r@.to_multiset() == items@.to_multiset(),
        forall|name: Seq<char>| #[trigger] packages_named(r@, name) == packages_named(items@, name),
{
    let mut rest = items;
    let mut out: Vec<CargoPackage> = Vec::new();
    let ghost all = rest@;
    proof {
        assert(out@.to_multiset() =~= Multiset::empty());
        assert forall|name: Seq<char>| #[trigger] packages_named(out@, name) + packages_named(
            rest@,
            name,
        ) == packages_named(all, name) by {
            assert(packages_named(out@, name) + packages_named(rest@, name) =~= packages_named(
                all,
                name,
            ));
        }
    }
    while rest.len() > 0
        invariant
            packages_sorted(out@),
            out@.to_multiset().add(rest@.to_multiset()) == all.to_multiset(),
            forall|name: Seq<char>| #[trigger] packages_named(out@, name) + packages_named(
                rest@,
                name,
            ) == packages_named(all, name),
        decreases rest.len(),
    {
        let ghost before = rest@;
        let ghost out_before = out@;
        let x = rest.remove(0);
        proof {
            vstd::seq_lib::to_multiset_remove(before, 0);
            assert(before =~= seq![x] + rest@);
        }
        insert_sorted_package(&mut out, x);
        proof {
            assert(out@.to_multiset().add(rest@.to_multiset()) =~= all.to_multiset());
            assert forall|name: Seq<char>| #[trigger] packages_named(out@, name) + packages_named(
                rest@,
                name,
            ) == packages_named(all, name) by {
                lemma_packages_named_concat(seq![x], rest@, name);
                assert(packages_named(out_before, name) + packages_named(before, name)
                    == packages_named(all, name));
                assert(packages_named(out@, name) + packages_named(rest@, name) =~= packages_named(
                    out_before,
                    name,
                ) + packages_named(before, name));
            }
        }
    }
    proof {
        assert(rest@.to_multiset() =~= Multiset::empty());
        assert forall|name: Seq<char>| #[trigger] packages_named(out@, name) == packages_named(
            items@,
            name,
        ) by {
            assert(packages_named(out@, name) + packages_named(rest@, name) == packages_named(
                all,
                name,
            ));
            assert(packages_named(out@, name) + packages_named(rest@, name) =~= packages_named(
                out@,
                name,
            ));
        }
    }
    out
}

/// Whether a text is among the texts of `v`.
pub open spec fn text_listed(v: Seq<String>, t: Seq<char>) -> bool {
    exists|k: int| 0 <= k < v.len() && #[trigger] v[k]@ == t
}

/// Whether `t` is one of the strings of `v`.
fn is_listed(v: &[String], t: &str) -> (r: bool)
    ensures
        r == text_listed(v@, t@),
{
    let n = v.len();
    for k in 0..n
        invariant
            n == v@.len(),
            forall|j: int| 0 <= j < k ==> #[trigger] v@[j]@ != t@,
    {
        if same_text(v[k].as_str(), t) {
            return true;
        }
    }
    false
}

/// The positions of the packages that belong to the workspace, in order: the
/// positions in `package_ids` of the ids listed in `member_ids` (the
/// workspace members that `cargo metadata` reports).
pub fn workspace_member_positions(package_ids: &[String], member_ids: &[String]) -> (r: Vec<
    usize,
>)
    ensures
        forall|k: int| 0 <= k < r@.len() ==> #[trigger] r@[k] < package_ids@.len(),
        forall|k: int, l: int| 0 <= k < l < r@.len() ==> #[trigger] r@[k] < #[trigger] r@[l],
        forall|i: int|
            0 <= i < package_ids@.len() ==> (r@.contains(i as usize) <==> text_listed(
                member_ids@,
                #[trigger] package_ids@[i]@,
            )),
{
    let mut out: Vec<usize> = Vec::new();
    let n = package_ids.len();
    for i in 0..n
        invariant
            n == package_ids@.len(),
            forall|k: int| 0 <= k < out@.len() ==> #[trigger] out@[k] < i,
            forall|k: int, l: int| 0 <= k < l < out@.len() ==> #[trigger] out@[k] < #[trigger] out@[l],
            forall|j: int|
                0 <= j < i ==> (out@.contains(j as usize) <==> text_listed(
                    member_ids@,
                    #[trigger] package_ids@[j]@,
                )),
    {
        let ghost before = out@;
        if is_listed(member_ids, package_ids[i].as_str()) {
            out.push(i);
            proof {
                assert(out@[before.len() as int] == i);
                assert forall|j: int| 0 <= j < i + 1 implies (out@.contains(j as usize)
                    <==> text_listed(member_ids@, #[trigger] package_ids@[j]@)) by {
                    if j < i {
                        if before.contains(j as usize) {
                            let k = choose|k: int| 0 <= k < before.len() && before[k] == j as usize;
                            assert(out@[k] == j as usize);
                        }
                        if out@.contains(j as usize) {
                            let k = choose|k: int| 0 <= k < out@.len() && out@[k] == j as usize;
                            assert(k < before.len());
                            assert(before[k] == j as usize);
                        }
                    }
                }
            }
        } else {
            proof {
                assert(!out@.contains(i));
            }
        }
    }
    out
}

/// A discovered Cargo workspace.
#[derive(Clone, Debug, PartialEq, Eq)]
pub struct CargoWorkspace {
    root: WorkspaceRoot,
    members: Vec<CargoPackage>,
}

impl CargoWorkspace {
    /// The workspace root path.
    pub closed spec fn root_text(&self) -> Seq<char> {
        self.root@
    }

    /// The workspace members.
    pub closed spec fn member_list(&self) -> Seq<CargoPackage> {
        self.members@
    }

    /// A workspace with the given root and members, the members sorted by
    /// name; members of equal names keep their order.
    pub fn from_members(root: WorkspaceRoot, members: Vec<CargoPackage>) -> (r: Self)
        ensures
            r.root_text() == root@,
            packages_sorted(r.member_list()),
            r.member_list().to_multiset() == members@.to_multiset(),
            forall|name: Seq<char>|
                #[trigger] packages_named(r.member_list(), name) == packages_named(members@, name),
    {
        CargoWorkspace { root, members: sort_packages(members) }
    }

    /// Returns the workspace root.
    pub fn root(&self) -> (r: &WorkspaceRoot)
        ensures
            r@ == self.root_text(),
    {
        &self.root
    }

    /// Returns the discovered workspace members.
    pub fn members(&self) -> (r: &[CargoPackage])
        ensures
            r@ == self.member_list(),
    {
        self.members.as_slice()
    }

    /// Takes the members out of the workspace.
    pub fn into_members(self) -> (r: Vec<CargoPackage>)
        ensures
            r@ == self.member_list(),
    {
        self.members
    }
}

impl CargoPackage {
    /// Describes a workspace member from its name, its version text and its
    /// parsed manifest.
    pub fn from_manifest(name: String, version: String, manifest: &CargoManifest) -> (r: Self)
        ensures
            r.name@ == name@,
            opt_text(r.version) == Some(version@),
            r.manifest_path@ == manifest.path_text(),
            r.publishable == manifest_publishable(manifest.document_model()),
    {
        CargoPackage {
            name,
            version: Some(version),
            manifest_path: manifest.path().duplicate(),
            publishable: manifest.is_publishable(),
        }
    }
}

/// The names of packages.
pub open spec fn package_name_texts(s: Seq<CargoPackage>) -> Seq<Seq<char>> {
    s.map_values(|p: CargoPackage| p.name@)
}

/// Returns workspace package names, sorted.
pub fn package_names(members: &[CargoPackage]) -> (r: Vec<String>)
    ensures
        texts_sorted(string_texts(r@)),
        string_texts(r@).to_multiset() == package_name_texts(members@).to_multiset(),
{
    let mut names: Vec<String> = Vec::new();
    let n = members.len();
    for i in 0..n
        invariant
            n == members@.len(),
            string_texts(names@) == package_name_texts(members@.take(i as int)),
    {
        let ghost before = names@;
        names.push(copy_string(&members[i].name));
        assert(members@.take(i + 1) =~= members@.take(i as int).push(members@[i as int]));
        assert(string_texts(names@) =~= string_texts(before).push(members@[i as int].name@));
        assert(package_name_texts(members@.take(i + 1)) =~= package_name_texts(
            members@.take(i as int),
        ).push(members@[i as int].name@));
    }
    assert(members@.take(n as int) =~= members@);
    sort_strings(names)
}

/// The publishable packages among `s`, in order.
pub open spec fn publishable_only(s: Seq<CargoPackage>) -> Seq<CargoPackage>
    decreases s.len(),
{
    if s.len() == 0 {
        Seq::empty()
    } else {
        let rest = publishable_only(s.drop_first());
        if s[0].publishable {
            seq![s[0]] + rest
        } else {
            rest
        }
    }
}

/// The publishable packages are exactly the input's packages that are
/// publishable, in their order: the result is the input filtered by
/// `publishable`, every package in it is publishable and comes from the
/// input, and every publishable package of the input is in it.
pub proof fn lemma_publishable_only_filters(s: Seq<CargoPackage>)
    ensures
        publishable_only(s) == s.filter(|p: CargoPackage| p.publishable),
        forall|i: int| 0 <= i < publishable_only(s).len() ==> (#[trigger] publishable_only(s)[i]).publishable
            && s.contains(publishable_only(s)[i]),
        forall|i: int| 0 <= i < s.len() && (#[trigger] s[i]).publishable ==> publishable_only(s).contains(s[i]),
    decreases s.len(),
{
    let f = |p: CargoPackage| p.publishable;
    if s.len() == 0 {
        assert(s.filter(f) =~= Seq::<CargoPackage>::empty());
    } else {
        let rest = s.drop_first();
        lemma_publishable_only_filters(rest);
        assert(s =~= seq![s[0]] + rest);
        rest.lemma_filter_prepend(s[0], f);
        if f(s[0]) {
            assert(s.filter(f) =~= seq![s[0]] + rest.filter(f));
        } else {
            assert(s.filter(f) =~= rest.filter(f));
        }
        let r = publishable_only(s);
        let rr = publishable_only(rest);
        assert forall|i: int| 0 <= i < r.len() implies (#[trigger] r[i]).publishable && s.contains(r[i]) by {
            if s[0].publishable {
                if i == 0 {
                    assert(s[0] == s[0]);
                    assert(s.contains(s[0]));
                } else {
                    assert(r[i] == rr[i - 1]);
                    let j = choose|j: int| 0 <= j < rest.len() && rest[j] == rr[i - 1];
                    assert(s[j + 1] == rest[j]);
                }
            } else {
                assert(r[i] == rr[i]);
                let j = choose|j: int| 0 <= j < rest.len() && rest[j] == rr[i];
                assert(s[j + 1] == rest[j]);
            }
        }
        assert forall|i: int| 0 <= i < s.len() && (#[trigger] s[i]).publishable implies r.contains(s[i]) by {
            if i == 0 {
                assert(r[0] == s[0]);
            } else {
                assert(s[i] == rest[i - 1]);
                let j = choose|j: int| 0 <= j < rr.len() && rr[j] == rest[i - 1];
                if s[0].publishable {
                    assert(r[j + 1] == rr[j]);
                } else {
                    assert(r[j] == rr[j]);
                }
            }
        }
    }
}

/// Returns the publishable packages, in order.
pub fn publishable_packages(members: Vec<CargoPackage>) -> (r: Vec<CargoPackage>)
    ensures
        r@ == publishable_only(members@),
        r@ == members@.filter(|p: CargoPackage| p.publishable),
{
    proof {
        lemma_publishable_only_filters(members@);
    }
    let mut rest = members;
    let mut out: Vec<CargoPackage> = Vec::new();
    let ghost all = rest@;
    while rest.len() > 0
        invariant
            out@ + publishable_only(rest@) == publishable_only(all),
        decreases rest.len(),
    {
        let ghost before = rest@;
        let x = rest.remove(0);
        proof {
            assert(rest@ =~= before.drop_first());
        }
        if x.publishable {
            out.push(x);
            proof {
                assert(out@ + publishable_only(rest@) =~= publishable_only(all));
            }
        }
    }
    out
}

} // verus!
