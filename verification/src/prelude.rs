//! Commonly used items, for a single `use`.

pub use crate::cargo::{
    is_workspace, package_names, publishable_packages, CargoEdition, CargoManifest, CargoPackage,
    CargoWorkspace, ManifestPath, WorkspaceRoot,
};
pub use crate::identity::{
    expected_docs_url, expected_repository_url, validate_crate_metadata, CrateMetadata, CrateName,
    DocumentationUrl, PublishStatus, RepositoryUrl,
};
pub use crate::naming::{
    crate_name_to_module_name, is_use_prefixed, is_valid_crate_name, module_name_to_crate_name,
    normalize_crate_name,
};
pub use crate::release::{ReleaseCheck, ReleaseIssue, ReleasePlan, ReleaseReport, ReleaseStatus};
pub use crate::version::{
    compare_versions, is_prerelease, next_major, next_minor, next_patch, parse_version,
    ReleaseLevel, Version, VersionBump, VersionPolicy,
};
