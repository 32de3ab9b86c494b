# use-rust

Rust ecosystem primitives for RustUse, verified with Verus: crate naming and
identity rules, semantic versions, Cargo manifest and workspace descriptions,
and release-readiness reports.

## Layout

- `src/` is the library. Its functions are verified against their
  `requires`/`ensures` contracts, except the small wrappers marked
  `#[verifier::external_body]` that call `std`, `semver`, `toml_edit` and
  `cargo_metadata`:
  their contracts are trusted, and each says in its doc comment which outside
  function it calls and what is claimed of it.
  - `naming.rs`: crate-name validation, the `use-*` prefix, crate/module name
    conversion, normalization and the expected repository and docs URLs, with
    the laws that tie them together (normalization is idempotent unless its
    first pass leaves whitespace other than a space at an edge, canonical names
    are left unchanged, name conversions round-trip).
  - `identity.rs`: `CrateName`, URL wrappers, `CrateMetadata` and its
    validation against the RustUse defaults.
  - `version.rs`: `Version` on top of `semver`, bumps and ordering.
  - `toml_doc.rs`: a plain model (`TomlNode`) of what the manifest logic reads
    from a `toml_edit` document, and the wrappers that read it.
  - `cargo.rs`: `CargoManifest` fields, dependencies, features,
    publishability, workspace members (stably sorted by name) and the
    decisions of the manifest and workspace-root searches.
  - `release.rs`: the release checks, `ReleaseReport` and `ReleasePlan`.
  - `sorting.rs`, `text.rs`: the text order and small string helpers.
- `app/` holds what Verus does not see: reading files, walking directories,
  running `cargo metadata`, `Display` and `std::error::Error`, and serde forms
  of the library's types. It hands plain values to the library and acts on
  the decisions it returns.
- `tests/` exercises the library on concrete values.
