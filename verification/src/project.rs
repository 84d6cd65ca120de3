//! Project-context model: what kind of directory the tool is running in
//! and the configuration a user project carries.
//!
//! Walking the file system and reading the configuration file are left to
//! the host; this module holds the data and the per-directory decision.
use vstd::prelude::*;

verus! {

/// What kind of project the tool is operating in.
#[derive(Debug, Clone, PartialEq, Eq, Structural)]
pub enum ProjectKind {
    /// Inside the engine repository itself.
    EngineDev,
    /// A user game project carrying an engine configuration file.
    UserProject,
}

/// Configuration read from a user project's configuration file.
#[derive(Debug, Clone)]
pub struct ProjectConfig {
    pub engine_path: String,
    pub default_backend: Option<String>,
}

/// The resolved project context. Paths are kept as plain strings.
#[derive(Debug, Clone)]
pub struct ProjectContext {
    /// The root of the project.
    pub project_root: String,
    /// What kind of project this is.
    pub kind: ProjectKind,
    /// Path to the engine source; for engine development this is the
    /// project root itself.
    pub engine_path: String,
    /// Configuration of a user project; none for engine development.
    pub config: Option<ProjectConfig>,
}

/// Decision taken for one directory while walking upwards: a directory is
/// an engine checkout when it holds both the package manifest and the
/// engine's root module; otherwise it is a user project exactly when it
/// holds the engine configuration file.
pub fn classify_project_dir(has_manifest: bool, has_engine_module: bool, has_config: bool) -> (r:
    Option<ProjectKind>)
    ensures
        r == if has_manifest && has_engine_module {
            Some(ProjectKind::EngineDev)
        } else if has_config {
            Some(ProjectKind::UserProject)
        } else {
            None::<ProjectKind>
        },
{
    if has_manifest && has_engine_module {
        Some(ProjectKind::EngineDev)
    } else if has_config {
        Some(ProjectKind::UserProject)
    } else {
        None
    }
}

} // verus!
