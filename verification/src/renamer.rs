//! The renamer: the configuration, the workspaces seen so far and the
//! labels handed out last.

use crate::config::{Args, Config};
use crate::table::WorkspaceMap;
use vstd::prelude::*;

verus! {

/// What a run keeps from one cycle to the next.
pub struct Renamer {
    pub known_workspaces: WorkspaceMap<i32>,
    pub cfg: Config,
    pub args: Args,
    pub workspace_strings_cache: WorkspaceMap<String>,
}

impl Renamer {
    /// A renamer that has seen no workspace and handed out no label.
    pub fn new(cfg: Config, args: Args) -> (r: Renamer)
        ensures
            r.cfg == cfg,
            r.args == args,
            r.known_workspaces@ == Map::<crate::workspace::WorkspaceName, i32>::empty(),
            r.workspace_strings_cache@ == Map::<crate::workspace::WorkspaceName, Seq<char>>::empty(),
    {
        Renamer {
            known_workspaces: WorkspaceMap::new(),
            cfg,
            args,
            workspace_strings_cache: WorkspaceMap::new(),
        }
    }
}

} // verus!
