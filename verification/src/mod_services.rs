//! What the mod hosting service says about a file.
use vstd::prelude::*;

use crate::dependency_resolver::CurseDependency;

verus! {

/// One file of a CurseForge project.
#[derive(Debug, Clone)]
pub struct CurseFileEntry {
    pub id: i64,
    pub file_name: String,
    pub file_length: u64,
    pub download_url: Option<String>,
    pub server_pack_file_id: Option<i64>,
    pub is_server_pack: bool,
    pub parent_project_file_id: Option<i64>,
    pub game_versions: Vec<String>,
    pub dependencies: Vec<CurseDependency>,
}

} // verus!
