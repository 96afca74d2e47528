//! Workspace identity: a workspace is regular and named, or special with
//! or without a name. The identity is taken from the numeric handle where
//! the window manager maps it, and from the name otherwise.

use crate::text::{decimal, decimal_string, has_prefix, same_text, strip_prefix, to_chars, to_string};
use vstd::prelude::*;

verus! {

/// The identity of a workspace.
#[derive(Debug, PartialEq, Eq, Hash)]
pub enum WorkspaceType {
    /// A regular workspace, with its name.
    Regular(String),
    /// A special workspace, with its name if it has one.
    Special(Option<String>),
}

/// A workspace identity as a mathematical value.
pub enum WorkspaceName {
    Regular(Seq<char>),
    Special(Option<Seq<char>>),
}

impl View for WorkspaceType {
    type V = WorkspaceName;

    open spec fn view(&self) -> WorkspaceName {
        match self {
            WorkspaceType::Regular(name) => WorkspaceName::Regular(name@),
            WorkspaceType::Special(Some(name)) => WorkspaceName::Special(Some(name@)),
            WorkspaceType::Special(None) => WorkspaceName::Special(None),
        }
    }
}

impl DeepView for WorkspaceType {
    type V = WorkspaceName;

    open spec fn deep_view(&self) -> WorkspaceName {
        self@
    }
}

impl WorkspaceType {
    /// Whether two identities are the same.
    pub fn same(&self, other: &WorkspaceType) -> (r: bool)
        ensures
            r == (self@ == other@),
    {
        match (self, other) {
            (WorkspaceType::Regular(a), WorkspaceType::Regular(b)) => *a == *b,
            (WorkspaceType::Special(Some(a)), WorkspaceType::Special(Some(b))) => *a == *b,
            (WorkspaceType::Special(None), WorkspaceType::Special(None)) => true,
            _ => false,
        }
    }

}

impl Clone for WorkspaceType {
    fn clone(&self) -> (r: WorkspaceType)
        ensures
            r == *self,
    {
        match self {
            WorkspaceType::Regular(name) => WorkspaceType::Regular(name.clone()),
            WorkspaceType::Special(Some(name)) => WorkspaceType::Special(Some(name.clone())),
            WorkspaceType::Special(None) => WorkspaceType::Special(None),
        }
    }
}

/// The text that stands for a workspace: the name of a regular one,
/// `special:` and the name for a named special one, `special` for the
/// special one without a name.
pub open spec fn workspace_text(workspace: WorkspaceName) -> Seq<char> {
    match workspace {
        WorkspaceName::Regular(name) => name,
        WorkspaceName::Special(Some(name)) => "special:"@ + name,
        WorkspaceName::Special(None) => "special"@,
    }
}

/// The identity that a workspace name stands for, where it stands for
/// one: the empty name stands for none.
pub open spec fn parsed_workspace(name: Seq<char>) -> Option<WorkspaceName> {
    if name == "special"@ {
        Some(WorkspaceName::Special(None))
    } else if has_prefix(name, "special:"@) {
        let rest = name.skip("special:"@.len() as int);
        if rest.len() == 0 {
            Some(WorkspaceName::Special(None))
        } else {
            Some(WorkspaceName::Special(Some(rest)))
        }
    } else if name.len() == 0 {
        None
    } else {
        Some(WorkspaceName::Regular(name))
    }
}

/// The identity of the workspace with handle `id` and name `name`: the
/// handle decides where it is 1 or more, then the name where it stands for
/// an identity, and at last the handle's decimal writing names a regular
/// workspace.
pub open spec fn workspace_identity(id: int, name: Seq<char>) -> WorkspaceName {
    if id >= 1 {
        WorkspaceName::Regular(decimal(id))
    } else {
        match parsed_workspace(name) {
            Some(workspace) => workspace,
            None => WorkspaceName::Regular(decimal(id)),
        }
    }
}

/// Whether the text of `workspace` stands for `workspace` alone: a regular
/// name is not empty, is not `special` and does not begin with `special:`,
/// and the name of a special workspace is not empty.
pub open spec fn plainly_named(workspace: WorkspaceName) -> bool {
    match workspace {
        WorkspaceName::Regular(name) => name.len() > 0 && name != "special"@ && !has_prefix(
            name,
            "special:"@,
        ),
        WorkspaceName::Special(Some(name)) => name.len() > 0,
        WorkspaceName::Special(None) => true,
    }
}

/// The text of a plainly named workspace reads back as that workspace.
pub proof fn text_reads_back(workspace: WorkspaceName)
    requires
        plainly_named(workspace),
    ensures
        parsed_workspace(workspace_text(workspace)) == Some(workspace),
{
    reveal_strlit("special");
    reveal_strlit("special:");
    match workspace {
        WorkspaceName::Special(Some(name)) => {
            let text = "special:"@ + name;
            assert(text.len() == 8 + name.len());
            assert(text.take(8) =~= "special:"@);
            assert(text.skip(8) =~= name);
        },
        _ => {},
    }
}

/// With a handle that stands for no workspace, a name that reads as a
/// workspace decides, and the handle's decimal writing where the name is
/// empty.
pub proof fn identity_without_handle(id: int, name: Seq<char>)
    requires
        id < 1,
    ensures
        parsed_workspace(name) is Some ==> workspace_identity(id, name) == parsed_workspace(
            name,
        )->0,
        name.len() == 0 ==> workspace_identity(id, name) == WorkspaceName::Regular(decimal(id)),
        name.len() > 0 ==> parsed_workspace(name) is Some,
{
    reveal_strlit("special");
    reveal_strlit("special:");
}

/// The text that stands for `workspace`.
pub fn workspace_type_to_string(workspace: &WorkspaceType) -> (r: String)
    ensures
        r@ == workspace_text(workspace@),
{
    match workspace {
        WorkspaceType::Regular(name) => name.clone(),
        WorkspaceType::Special(Some(name)) => {
            let mut out = to_chars("special:");
            let rest = to_chars(name.as_str());
            crate::text::push_all(&mut out, &rest);
            to_string(&out)
        },
        WorkspaceType::Special(None) => {
            let out = to_chars("special");
            to_string(&out)
        },
    }
}

/// Reads a workspace name as an identity.
pub fn parse_workspace_type(name: &str) -> (r: Option<WorkspaceType>)
    ensures
        r.deep_view() == parsed_workspace(name@),
{
    let chars = to_chars(name);
    let special = to_chars("special");
    let prefix = to_chars("special:");
    if same_text(&chars, &special) {
        return Some(WorkspaceType::Special(None));
    }
    match strip_prefix(&chars, &prefix) {
        Some(stripped) => {
            if stripped.len() == 0 {
                Some(WorkspaceType::Special(None))
            } else {
                Some(WorkspaceType::Special(Some(to_string(&stripped))))
            }
        },
        None => {
            if chars.len() == 0 {
                None
            } else {
                Some(WorkspaceType::Regular(to_string(&chars)))
            }
        },
    }
}

/// `hyprland::shared::WorkspaceType::try_from` on an `i32`: for a handle of
/// 1 or more the regular workspace named by the handle's decimal writing,
/// for any other handle a failure.
#[verifier::external_body]
fn workspace_type_of_handle(id: i32) -> (r: Option<WorkspaceType>)
    ensures
        r is Some <==> id >= 1,
        r is Some ==> r->0@ == WorkspaceName::Regular(decimal(id as int)),
{
    match hyprland::shared::WorkspaceType::try_from(id) {
        Ok(hyprland::shared::WorkspaceType::Regular(name)) => Some(WorkspaceType::Regular(name)),
        Ok(hyprland::shared::WorkspaceType::Special(name)) => Some(WorkspaceType::Special(name)),
        Err(_) => None,
    }
}

/// The identity of the workspace with handle `id` and name `name`.
pub fn workspace_type_from_parts(id: i32, name: &str) -> (r: WorkspaceType)
    ensures
        r@ == workspace_identity(id as int, name@),
{
    match workspace_type_of_handle(id) {
        Some(workspace) => workspace,
        None => match parse_workspace_type(name) {
            Some(workspace) => workspace,
            None => WorkspaceType::Regular(decimal_string(id as i64)),
        },
    }
}

/// The display name that `names` gives to the text `key`: the name of the
/// first pair whose first part is `key`, and `key` itself where there is
/// none.
pub open spec fn display_name(names: Seq<(Seq<char>, Seq<char>)>, key: Seq<char>) -> Seq<char>
    decreases names.len(),
{
    if names.len() == 0 {
        key
    } else if names[0].0 == key {
        names[0].1
    } else {
        display_name(names.drop_first(), key)
    }
}

/// The display name of `workspace` under the configured names.
pub fn get_workspace_name(workspace: &WorkspaceType, workspaces_name: &Vec<(String, String)>) -> (r:
    String)
    ensures
        r@ == display_name(workspaces_name.deep_view(), workspace_text(workspace@)),
{
    let workspace_key = workspace_type_to_string(workspace);
    let mut i: usize = 0;
    assert(workspaces_name.deep_view().skip(0) == workspaces_name.deep_view());
    while i < workspaces_name.len()
        invariant
            i <= workspaces_name.len(),
            workspace_key@ == workspace_text(workspace@),
            display_name(workspaces_name.deep_view(), workspace_key@) == display_name(
                workspaces_name.deep_view().skip(i as int),
                workspace_key@,
            ),
        decreases workspaces_name.len() - i,
    {
        assert(workspaces_name.deep_view().skip(i as int)[0] == workspaces_name@[i as int].deep_view());
        if workspaces_name[i].0 == workspace_key {
            return workspaces_name[i].1.clone();
        }
        assert(workspaces_name.deep_view().skip(i as int).drop_first()
            == workspaces_name.deep_view().skip(i + 1));
        i += 1;
    }
    workspace_key
}

} // verus!
