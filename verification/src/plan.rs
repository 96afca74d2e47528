//! One cycle: from what the window manager reports to the workspaces that
//! are to be renamed, each with its new name.

use crate::cache::{altered, commit_of_diff_settles, Labels};
use crate::client::{ClientRecord, Record};
use crate::config::{ConfigFile, ConfigFormatRaw, Format, Rules, Settings};
use crate::formatter::{formatted, formatter, vars_map};
use crate::renamer::Renamer;
use crate::render::{segment, segments, Workspace};
use crate::snapshot::{
    by_position, get_filtered_clients, kept_records, known_after, members, windows,
};
use crate::table::{entries_are_the_map, key_set, map_of, place_of, WorkspaceMap};
use crate::text::{decimal_two, decimal_two_string, owned, to_chars, to_string, trim, trimmed};
use crate::workspace::{
    display_name, get_workspace_name, workspace_identity, workspace_text,
    workspace_type_from_parts, workspace_type_to_string, WorkspaceName, WorkspaceType,
};
use vstd::prelude::*;

verus! {

/// The order to give the workspace with the handle `id` the name `name`.
#[derive(Debug, PartialEq, Eq)]
pub struct RenameCommand {
    pub id: i32,
    pub name: String,
}

/// A rename order as a mathematical value.
pub struct Command {
    pub id: i32,
    pub name: Seq<char>,
}

impl View for RenameCommand {
    type V = Command;

    open spec fn view(&self) -> Command {
        Command { id: self.id, name: self.name@ }
    }
}

impl DeepView for RenameCommand {
    type V = Command;

    open spec fn deep_view(&self) -> Command {
        self@
    }
}

/// The workspace that has the focus, as the window manager reports it.
#[derive(Debug, PartialEq, Eq)]
pub struct ActiveWorkspace {
    pub id: i32,
    pub name: String,
    pub windows: u16,
}

/// What one cycle orders: a name for the focused workspace where it is
/// empty, and a name for every workspace whose label changed.
pub struct RenamePlan {
    pub active_empty: Option<RenameCommand>,
    pub changed: WorkspaceMap<RenameCommand>,
}

/// The names that the template of a workspace may use.
pub open spec fn workspace_vars(
    id: i32,
    workspace: WorkspaceName,
    clients: Seq<char>,
    format: Format,
    names: Rules,
) -> Seq<(Seq<char>, Seq<char>)> {
    seq![
        ("id"@, workspace_text(workspace)),
        ("id_long"@, decimal_two(id as int)),
        ("name"@, display_name(names, workspace_text(workspace))),
        ("delim"@, format.delim),
        ("clients"@, clients),
    ]
}

/// The name of a workspace with the client segment `clients`: the
/// workspace template formatted, or the template of the empty workspace
/// where the segment is empty, without white space at the ends.
pub open spec fn workspace_label(
    id: i32,
    workspace: WorkspaceName,
    clients: Seq<char>,
    format: Format,
    names: Rules,
) -> Seq<char> {
    trim(
        formatted(
            if clients.len() > 0 {
                format.workspace
            } else {
                format.workspace_empty
            },
            vars_map(workspace_vars(id, workspace, clients, format, names)),
        ),
    )
}

/// The order to rename a workspace with the client segment `clients`.
pub open spec fn command(
    id: i32,
    workspace: WorkspaceName,
    clients: Seq<char>,
    format: Format,
    names: Rules,
) -> Command {
    Command { id, name: workspace_label(id, workspace, clients, format, names) }
}

/// The order to rename the workspace `workspace` with the handle `id` and
/// the client segment `clients`.
pub fn rename_cmd(
    id: i32,
    workspace: &WorkspaceType,
    clients: &str,
    config_format: &ConfigFormatRaw,
    workspaces_name: &Vec<(String, String)>,
) -> (r: RenameCommand)
    ensures
        r@ == command(id, workspace@, clients@, config_format@, workspaces_name.deep_view()),
{
    let workspace_identifier = workspace_type_to_string(workspace);
    let id_two_digits = decimal_two_string(id);
    let workspace_name = get_workspace_name(workspace, workspaces_name);
    let mut vars: Vec<(String, String)> = Vec::new();
    vars.push((owned("id"), workspace_identifier));
    vars.push((owned("id_long"), id_two_digits));
    vars.push((owned("name"), workspace_name));
    vars.push((owned("delim"), config_format.delim.clone()));
    vars.push((owned("clients"), owned(clients)));
    assert(vars.deep_view() =~= workspace_vars(
        id,
        workspace@,
        clients@,
        config_format@,
        workspaces_name.deep_view(),
    ));
    let text = if !clients.is_empty() {
        formatter(config_format.workspace.as_str(), &vars)
    } else {
        formatter(config_format.workspace_empty.as_str(), &vars)
    };
    let name = to_string(&trimmed(&to_chars(text.as_str())));
    RenameCommand { id, name }
}

/// The order for the focused workspace where it has no window: it gets
/// the name of an empty workspace.
pub fn rename_empty_workspace(workspace: &ActiveWorkspace, config: &ConfigFile) -> (r: Option<
    RenameCommand,
>)
    ensures
        r.deep_view() == if workspace.windows == 0 {
            Some(
                command(
                    workspace.id,
                    workspace_identity(workspace.id as int, workspace.name@),
                    Seq::empty(),
                    config@.format,
                    config@.workspaces_name,
                ),
            )
        } else {
            None
        },
{
    if workspace.windows == 0 {
        let workspace_type = workspace_type_from_parts(workspace.id, workspace.name.as_str());
        let nothing = String::new();
        Some(
            rename_cmd(
                workspace.id,
                &workspace_type,
                nothing.as_str(),
                &config.format,
                &config.workspaces_name,
            ),
        )
    } else {
        None
    }
}

/// The client segment of every known workspace, as the reported windows
/// show it.
pub open spec fn labels_of(
    known: Map<WorkspaceName, i32>,
    records: Seq<Record>,
    active_client: Seq<char>,
    settings: Settings,
) -> Labels {
    Map::new(
        |workspace: WorkspaceName| known.contains_key(workspace),
        |workspace: WorkspaceName|
            segment(
                windows(by_position(members(records, workspace)), active_client, settings),
                settings.format,
            ),
    )
}

/// One order for every workspace of `labels` with a known handle.
pub open spec fn commands_for(labels: Labels, known: Map<WorkspaceName, i32>, settings: Settings)
    -> Map<WorkspaceName, Command> {
    Map::new(
        |workspace: WorkspaceName| labels.contains_key(workspace) && known.contains_key(workspace),
        |workspace: WorkspaceName|
            command(
                known[workspace],
                workspace,
                labels[workspace],
                settings.format,
                settings.workspaces_name,
            ),
    )
}

/// One order for every known workspace, as if it had no window.
pub open spec fn blank_commands(known: Map<WorkspaceName, i32>, settings: Settings) -> Map<
    WorkspaceName,
    Command,
> {
    Map::new(
        |workspace: WorkspaceName| known.contains_key(workspace),
        |workspace: WorkspaceName|
            command(
                known[workspace],
                workspace,
                Seq::empty(),
                settings.format,
                settings.workspaces_name,
            ),
    )
}

/// Workspaces with different identities have their segments by identity.
pub proof fn segments_by_identity(workspaces: Seq<Workspace>, format: Format)
    requires
        forall|i: int, j: int|
            0 <= i < j < workspaces.len() ==> (#[trigger] workspaces[i]).id != (
            #[trigger] workspaces[j]).id,
    ensures
        forall|k: int|
            0 <= k < workspaces.len() ==> segments(workspaces, format).contains_key(
                (#[trigger] workspaces[k]).id,
            ) && segments(workspaces, format)[workspaces[k].id] == segment(
                workspaces[k].clients,
                format,
            ),
        forall|workspace: WorkspaceName|
            segments(workspaces, format).contains_key(workspace) ==> exists|k: int|
                0 <= k < workspaces.len() && (#[trigger] workspaces[k]).id == workspace,
    decreases workspaces.len(),
{
    if workspaces.len() > 0 {
        let front = workspaces.drop_last();
        let last = workspaces.last();
        assert forall|i: int, j: int| 0 <= i < j < front.len() implies (#[trigger] front[i]).id != (
        #[trigger] front[j]).id by {
            assert(front[i] == workspaces[i]);
            assert(front[j] == workspaces[j]);
        }
        segments_by_identity(front, format);
        assert forall|k: int| 0 <= k < workspaces.len() implies segments(
            workspaces,
            format,
        ).contains_key((#[trigger] workspaces[k]).id) && segments(
            workspaces,
            format,
        )[workspaces[k].id] == segment(workspaces[k].clients, format) by {
            if k < front.len() {
                assert(front[k] == workspaces[k]);
                assert(workspaces[k].id != workspaces[workspaces.len() - 1].id);
            }
        }
        assert forall|workspace: WorkspaceName|
            segments(workspaces, format).contains_key(workspace) implies exists|k: int|
            0 <= k < workspaces.len() && (#[trigger] workspaces[k]).id == workspace by {
            if workspace == last.id {
                assert(workspaces[workspaces.len() - 1].id == workspace);
            } else {
                assert(segments(front, format).contains_key(workspace));
                let k = choose|k: int| 0 <= k < front.len() && (#[trigger] front[k]).id == workspace;
                assert(front[k] == workspaces[k]);
            }
        }
    }
}

impl Renamer {
    /// One cycle. The windows that are shown go to their workspaces, every
    /// workspace gets its label, and the plan orders a new name for every
    /// workspace whose label is not the one handed out last. After the
    /// cycle the labels handed out last are the labels of this cycle.
    pub fn rename_workspace(
        &mut self,
        active_workspace: Option<ActiveWorkspace>,
        clients: Vec<ClientRecord>,
        active_client: String,
    ) -> (r: RenamePlan)
        ensures
            final(self).cfg == old(self).cfg,
            final(self).args == old(self).args,
            final(self).known_workspaces@ == known_after(
                old(self).known_workspaces@,
                kept_records(clients.deep_view(), old(self).cfg.config@.exclude),
            ),
            final(self).workspace_strings_cache@ == labels_of(
                final(self).known_workspaces@,
                kept_records(clients.deep_view(), old(self).cfg.config@.exclude),
                active_client@,
                old(self).cfg.config@,
            ),
            r.changed@ == commands_for(
                altered(
                    old(self).workspace_strings_cache@,
                    final(self).workspace_strings_cache@,
                ),
                final(self).known_workspaces@,
                old(self).cfg.config@,
            ),
            r.active_empty.deep_view() == match active_workspace {
                Some(workspace) => if workspace.windows == 0 {
                    Some(
                        command(
                            workspace.id,
                            workspace_identity(workspace.id as int, workspace.name@),
                            Seq::empty(),
                            old(self).cfg.config@.format,
                            old(self).cfg.config@.workspaces_name,
                        ),
                    )
                } else {
                    None
                },
                None => None,
            },
    {
        let config = self.cfg.config.clone();
        let ghost settings = config@;
        let ghost cache = self.workspace_strings_cache@;
        let active_empty = match &active_workspace {
            Some(workspace) => rename_empty_workspace(workspace, &config),
            None => None,
        };
        let shown = get_filtered_clients(clients, &config);
        let ghost records = shown.deep_view();
        let ghost active = active_client@;
        let workspaces = self.get_workspaces_from_clients(shown, active_client, &config);
        let ghost known = self.known_workspaces@;
        let ghost labels = labels_of(known, records, active, settings);
        let mut workspace_ids: Vec<WorkspaceType> = Vec::new();
        let mut k: usize = 0;
        while k < workspaces.len()
            invariant
                k <= workspaces.len(),
                workspace_ids.len() == k,
                forall|j: int| 0 <= j < k ==> (#[trigger] workspace_ids@[j])@ == workspaces@[j]@.id,
            decreases workspaces.len() - k,
        {
            workspace_ids.push(workspaces[k].id.clone());
            k += 1;
        }
        let known_entries = self.known_workspaces.entries();
        proof {
            let listed = known_entries@;
            let shown_workspaces = workspaces.deep_view();
            entries_are_the_map(listed);
            assert forall|i: int, j: int| 0 <= i < j < shown_workspaces.len() implies (
            #[trigger] shown_workspaces[i]).id != (#[trigger] shown_workspaces[j]).id by {
                assert(shown_workspaces[i] == workspaces@[i]@);
                assert(shown_workspaces[j] == workspaces@[j]@);
                assert(listed[i].0@ != listed[j].0@);
            }
            segments_by_identity(shown_workspaces, settings.format);
            let texts = segments(shown_workspaces, settings.format);
            assert forall|workspace: WorkspaceName| #[trigger]
                texts.dom().contains(workspace) <==> labels.dom().contains(workspace) by {
                if texts.contains_key(workspace) {
                    let i = choose|i: int|
                        0 <= i < shown_workspaces.len() && (#[trigger] shown_workspaces[i]).id
                            == workspace;
                    assert(shown_workspaces[i] == workspaces@[i]@);
                    assert(listed[i].0@ == workspace);
                    assert(known.contains_key(workspace));
                }
                if labels.dom().contains(workspace) {
                    assert(known.contains_key(workspace));
                    let i = place_of(listed, workspace);
                    assert(listed[i].0@ == workspace);
                    assert(shown_workspaces[i] == workspaces@[i]@);
                    assert(shown_workspaces[i].id == workspace);
                }
            }
            assert forall|workspace: WorkspaceName| #[trigger]
                texts.dom().contains(workspace) implies texts[workspace] == labels[workspace] by {
                assert(labels.dom().contains(workspace));
                let i = place_of(listed, workspace);
                assert(listed[i].0@ == workspace);
                assert(shown_workspaces[i] == workspaces@[i]@);
                assert(shown_workspaces[i].id == workspace);
            }
            assert(texts.dom() =~= labels.dom());
            assert(texts =~= labels);
            assert(key_set(workspace_ids@) =~= known.dom()) by {
                assert forall|workspace: WorkspaceName|
                    key_set(workspace_ids@).contains(workspace) implies known.dom().contains(
                    workspace,
                ) by {
                    let i = choose|i: int|
                        0 <= i < workspace_ids@.len() && (#[trigger] workspace_ids@[i])@
                            == workspace;
                    assert(workspaces@[i]@.id == workspace);
                    assert(listed[i].0@ == workspace);
                }
                assert forall|workspace: WorkspaceName|
                    known.dom().contains(workspace) implies key_set(workspace_ids@).contains(
                    workspace,
                ) by {
                    let i = place_of(listed, workspace);
                    assert(listed[i].0@ == workspace);
                    assert(workspaces@[i]@.id == workspace);
                    assert(workspace_ids@[i]@ == workspace);
                }
            }
        }
        let workspaces_strings = self.generate_workspaces_string(workspaces, &config);
        let altered_workspaces = self.get_altered_workspaces(&workspaces_strings);
        let ghost wanted = commands_for(altered(cache, labels), known, settings);
        let entries = altered_workspaces.entries();
        proof {
            entries_are_the_map(entries@);
        }
        let mut changed: WorkspaceMap<RenameCommand> = WorkspaceMap::new();
        let mut i: usize = 0;
        while i < entries.len()
            invariant
                i <= entries.len(),
                settings == config@,
                known == self.known_workspaces@,
                map_of(entries@) == altered(cache, labels),
                wanted == commands_for(altered(cache, labels), known, settings),
                forall|j: int|
                    0 <= j < entries.len() ==> map_of(entries@).contains_key(
                        (#[trigger] entries@[j]).0@,
                    ) && map_of(entries@)[entries@[j].0@] == entries@[j].1@,
                changed@.submap_of(wanted),
                forall|j: int|
                    0 <= j < i && wanted.contains_key((#[trigger] entries@[j]).0@)
                        ==> changed@.contains_key(entries@[j].0@),
            decreases entries.len() - i,
        {
            let id = &entries[i].0;
            if let Some(raw_id) = self.known_workspaces.get(id) {
                let order = rename_cmd(
                    *raw_id,
                    id,
                    entries[i].1.as_str(),
                    &config.format,
                    &config.workspaces_name,
                );
                let ghost before = changed@;
                changed.insert(id.clone(), order);
                proof {
                    assert(wanted.contains_key(id@) && wanted[id@] == order@);
                    assert forall|w: WorkspaceName| #[trigger]
                        changed@.dom().contains(w) implies wanted.dom().contains(w) && changed@[w]
                        == wanted[w] by {
                        if w != id@ {
                            assert(before.dom().contains(w));
                        }
                    }
                }
            }
            i += 1;
        }
        proof {
            assert forall|w: WorkspaceName| wanted.contains_key(w) implies changed@.contains_key(
                w,
            ) by {
                let j = place_of(entries@, w);
                assert(entries@[j].0@ == w);
            }
            assert(changed@ =~= wanted);
            commit_of_diff_settles(cache, labels);
            assert(labels.dom() =~= known.dom());
        }
        self.update_cache(&altered_workspaces, &workspace_ids);
        RenamePlan { active_empty, changed }
    }

    /// Forgets every label handed out, and orders for every known
    /// workspace the name of a workspace without windows.
    pub fn reset_workspaces(&mut self, config: ConfigFile) -> (r: WorkspaceMap<RenameCommand>)
        ensures
            final(self).workspace_strings_cache@ == Map::<WorkspaceName, Seq<char>>::empty(),
            final(self).known_workspaces == old(self).known_workspaces,
            final(self).cfg == old(self).cfg,
            final(self).args == old(self).args,
            r@ == blank_commands(old(self).known_workspaces@, config@),
    {
        self.workspace_strings_cache.clear();
        let ghost known = self.known_workspaces@;
        let ghost wanted = blank_commands(known, config@);
        let entries = self.known_workspaces.entries();
        proof {
            entries_are_the_map(entries@);
        }
        let nothing = String::new();
        let mut orders: WorkspaceMap<RenameCommand> = WorkspaceMap::new();
        let mut i: usize = 0;
        while i < entries.len()
            invariant
                i <= entries.len(),
                nothing@ == Seq::<char>::empty(),
                known == map_of(entries@),
                wanted == blank_commands(known, config@),
                forall|j: int|
                    0 <= j < entries.len() ==> known.contains_key((#[trigger] entries@[j]).0@)
                        && known[entries@[j].0@] == entries@[j].1,
                orders@.submap_of(wanted),
                forall|j: int| 0 <= j < i ==> orders@.contains_key((#[trigger] entries@[j]).0@),
            decreases entries.len() - i,
        {
            let order = rename_cmd(
                entries[i].1,
                &entries[i].0,
                nothing.as_str(),
                &config.format,
                &config.workspaces_name,
            );
            let ghost before = orders@;
            let ghost id = entries@[i as int].0@;
            orders.insert(entries[i].0.clone(), order);
            proof {
                assert(wanted.contains_key(id) && wanted[id] == order@);
                assert forall|w: WorkspaceName| #[trigger] orders@.dom().contains(w) implies wanted.dom().contains(
                    w,
                ) && orders@[w] == wanted[w] by {
                    if w != id {
                        assert(before.dom().contains(w));
                    }
                }
                assert forall|j: int| 0 <= j < i + 1 implies orders@.contains_key(
                    (#[trigger] entries@[j]).0@,
                ) by {
                    if j < i {
                        assert(before.contains_key(entries@[j].0@));
                    }
                }
            }
            i += 1;
        }
        proof {
            assert forall|w: WorkspaceName| wanted.contains_key(w) implies orders@.contains_key(
                w,
            ) by {
                let j = place_of(entries@, w);
                assert(entries@[j].0@ == w);
            }
            assert(orders@ =~= wanted);
        }
        orders
    }

    /// Forgets the workspace with the handle `id` and the name `name`, and
    /// says whether it was known.
    pub fn remove_workspace(&mut self, id: i32, name: &WorkspaceType) -> (r: bool)
        ensures
            r == old(self).known_workspaces@.contains_key(
                workspace_identity(id as int, workspace_text(name@)),
            ),
            final(self).known_workspaces@ == old(self).known_workspaces@.remove(
                workspace_identity(id as int, workspace_text(name@)),
            ),
            final(self).workspace_strings_cache == old(self).workspace_strings_cache,
            final(self).cfg == old(self).cfg,
            final(self).args == old(self).args,
    {
        let workspace = workspace_type_from_parts(id, workspace_type_to_string(name).as_str());
        self.known_workspaces.remove(&workspace)
    }
}

} // verus!
