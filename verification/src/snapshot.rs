//! From the windows that the window manager reports to workspaces: every
//! window goes to the workspace that its handle and name stand for, and the
//! windows of a workspace are put in the order of their places on screen.

use crate::client::{AppClient, Client, ClientRecord, Record};
use crate::config::{ConfigFile, Settings};
use crate::pattern::{is_match, regex_is_match};
use crate::renamer::Renamer;
use crate::render::{AppWorkspace, Workspace};
use crate::resolver::resolved_icon;
use crate::workspace::{workspace_identity, workspace_type_from_parts, WorkspaceName, WorkspaceType};
use vstd::prelude::*;

verus! {

/// Whether the place `a` comes before the place `b`: further left, or as
/// far left and higher up.
pub open spec fn before(a: (i16, i16), b: (i16, i16)) -> bool {
    a.0 < b.0 || (a.0 == b.0 && a.1 < b.1)
}

/// `sorted` with `record` put behind every window that does not come after
/// it.
pub open spec fn placed_in(sorted: Seq<Record>, record: Record) -> Seq<Record>
    decreases sorted.len(),
{
    if sorted.len() == 0 {
        seq![record]
    } else if before(record.at, sorted.last().at) {
        placed_in(sorted.drop_last(), record).push(sorted.last())
    } else {
        sorted.push(record)
    }
}

/// The windows in the order of their places; windows at the same place
/// keep the order in which they were reported.
pub open spec fn by_position(records: Seq<Record>) -> Seq<Record>
    decreases records.len(),
{
    if records.len() == 0 {
        Seq::empty()
    } else {
        placed_in(by_position(records.drop_last()), records.last())
    }
}

/// The workspace that a window is on.
pub open spec fn identity_of(record: Record) -> WorkspaceName {
    workspace_identity(record.workspace_id as int, record.workspace_name)
}

/// The windows that are on `workspace`, in the order in which they were
/// reported.
pub open spec fn members(records: Seq<Record>, workspace: WorkspaceName) -> Seq<Record>
    decreases records.len(),
{
    if records.len() == 0 {
        Seq::empty()
    } else if identity_of(records.last()) == workspace {
        members(records.drop_last(), workspace).push(records.last())
    } else {
        members(records.drop_last(), workspace)
    }
}

/// A reported window with its icon. The window is focused where its
/// address is that of the focused window.
pub open spec fn window(record: Record, active_client: Seq<char>, settings: Settings) -> Client {
    Client {
        class: record.class,
        title: record.title,
        initial_class: record.initial_class,
        initial_title: record.initial_title,
        is_active: record.address == active_client,
        is_fullscreen: record.fullscreen,
        is_dedup_inactive_fullscreen: settings.format.dedup_inactive_fullscreen,
        matched_rule: resolved_icon(
            settings,
            record.initial_class,
            record.class,
            record.initial_title,
            record.title,
            record.address == active_client,
        ),
    }
}

/// The reported windows with their icons, in the same order.
pub open spec fn windows(records: Seq<Record>, active_client: Seq<char>, settings: Settings) -> Seq<
    Client,
> {
    Seq::new(records.len(), |i: int| window(records[i], active_client, settings))
}

/// The workspaces known after the windows were seen: each window makes its
/// workspace known under the handle that it reports.
pub open spec fn known_after(known: Map<WorkspaceName, i32>, records: Seq<Record>) -> Map<
    WorkspaceName,
    i32,
>
    decreases records.len(),
{
    if records.len() == 0 {
        known
    } else {
        known_after(known, records.drop_last()).insert(
            identity_of(records.last()),
            records.last().workspace_id,
        )
    }
}

/// The workspace `workspace` with the handle `handle`, as the reported
/// windows show it.
pub open spec fn workspace_of(
    workspace: WorkspaceName,
    handle: i32,
    records: Seq<Record>,
    active_client: Seq<char>,
    settings: Settings,
) -> Workspace {
    Workspace {
        id: workspace,
        hyprland_id: handle,
        clients: windows(by_position(members(records, workspace)), active_client, settings),
    }
}

/// Whether one of the pairs of `exclude` matches the window: its first
/// pattern the class, and its second the title.
pub open spec fn excluded(record: Record, exclude: Seq<(Seq<char>, Seq<char>)>) -> bool {
    exists|i: int|
        0 <= i < exclude.len() && regex_is_match((#[trigger] exclude[i]).0, record.class)
            && regex_is_match(exclude[i].1, record.title)
}

/// Whether a window is shown: it belongs to a process, and it is not
/// excluded.
pub open spec fn kept(record: Record, exclude: Seq<(Seq<char>, Seq<char>)>) -> bool {
    record.pid > 0 && !excluded(record, exclude)
}

/// The windows that are shown, in the order in which they were reported.
pub open spec fn kept_records(records: Seq<Record>, exclude: Seq<(Seq<char>, Seq<char>)>) -> Seq<
    Record,
>
    decreases records.len(),
{
    if records.len() == 0 {
        Seq::empty()
    } else if kept(records.last(), exclude) {
        kept_records(records.drop_last(), exclude).push(records.last())
    } else {
        kept_records(records.drop_last(), exclude)
    }
}

/// Whether a window is excluded from the labels.
pub fn is_excluded(client: &ClientRecord, exclude: &Vec<(String, String)>) -> (r: bool)
    ensures
        r == excluded(client@, exclude.deep_view()),
{
    let mut i: usize = 0;
    while i < exclude.len()
        invariant
            i <= exclude.len(),
            forall|j: int|
                0 <= j < i ==> !(regex_is_match(
                    (#[trigger] exclude.deep_view()[j]).0,
                    client@.class,
                ) && regex_is_match(exclude.deep_view()[j].1, client@.title)),
        decreases exclude.len() - i,
    {
        if is_match(exclude[i].0.as_str(), client.class.as_str()) && is_match(
            exclude[i].1.as_str(),
            client.title.as_str(),
        ) {
            assert(regex_is_match(exclude.deep_view()[i as int].0, client@.class));
            return true;
        }
        i += 1;
    }
    false
}

/// Leaves out the windows that belong to no process and the windows that
/// the configuration excludes.
pub fn get_filtered_clients(clients: Vec<ClientRecord>, config: &ConfigFile) -> (r: Vec<
    ClientRecord,
>)
    ensures
        r.deep_view() == kept_records(clients.deep_view(), config@.exclude),
{
    let ghost all = clients.deep_view();
    let mut shown: Vec<ClientRecord> = Vec::new();
    let mut n: usize = 0;
    assert(all.take(0) =~= Seq::empty());
    assert(shown.deep_view() =~= Seq::empty());
    while n < clients.len()
        invariant
            n <= clients.len(),
            all == clients.deep_view(),
            shown.deep_view() == kept_records(all.take(n as int), config@.exclude),
        decreases clients.len() - n,
    {
        proof {
            assert(all.take(n + 1).drop_last() =~= all.take(n as int));
            assert(all.take(n + 1).last() == clients@[n as int]@);
        }
        if clients[n].pid > 0 && !is_excluded(&clients[n], &config.exclude) {
            let ghost held = shown.deep_view();
            shown.push(clients[n].clone());
            assert(shown.deep_view() =~= held.push(clients@[n as int]@));
        }
        n += 1;
    }
    assert(all.take(clients.len() as int) =~= all);
    shown
}

/// Putting a window in is inserting it behind the last window that does
/// not come after it.
proof fn placed_in_at(sorted: Seq<Record>, record: Record, j: int)
    requires
        0 <= j <= sorted.len(),
        forall|t: int| j <= t < sorted.len() ==> before(record.at, sorted[t].at),
        j > 0 ==> !before(record.at, sorted[j - 1].at),
    ensures
        placed_in(sorted, record) == sorted.insert(j, record),
    decreases sorted.len(),
{
    if sorted.len() == 0 {
        assert(sorted.insert(0, record) =~= seq![record]);
    } else if j < sorted.len() {
        placed_in_at(sorted.drop_last(), record, j);
        assert(sorted.drop_last().insert(j, record).push(sorted.last()) =~= sorted.insert(
            j,
            record,
        ));
    } else {
        assert(sorted.push(record) =~= sorted.insert(j, record));
    }
}

/// Whether no window of `records` comes before one that stands before it.
pub open spec fn in_order(records: Seq<Record>) -> bool {
    forall|i: int, j: int|
        0 <= i < j < records.len() ==> !before((#[trigger] records[j]).at, (#[trigger] records[i]).at)
}

/// Putting a window into an ordered list leaves it ordered, and adds
/// that window and no other.
pub proof fn placing_keeps_order(sorted: Seq<Record>, record: Record)
    requires
        in_order(sorted),
    ensures
        in_order(placed_in(sorted, record)),
        placed_in(sorted, record).to_multiset() == sorted.to_multiset().insert(record),
        placed_in(sorted, record).len() == sorted.len() + 1,
    decreases sorted.len(),
{
    broadcast use vstd::seq_lib::group_to_multiset_ensures;

    if sorted.len() == 0 {
        assert(placed_in(sorted, record) =~= sorted.push(record));
    } else if before(record.at, sorted.last().at) {
        let front = sorted.drop_last();
        let last = sorted.last();
        assert forall|i: int, j: int| 0 <= i < j < front.len() implies !before(
            (#[trigger] front[j]).at,
            (#[trigger] front[i]).at,
        ) by {
            assert(front[i] == sorted[i]);
            assert(front[j] == sorted[j]);
        }
        placing_keeps_order(front, record);
        let placed = placed_in(front, record);
        let whole = placed.push(last);
        assert(sorted =~= front.push(last));
        assert(whole.to_multiset() =~= sorted.to_multiset().insert(record));
        assert forall|i: int, j: int| 0 <= i < j < whole.len() implies !before(
            (#[trigger] whole[j]).at,
            (#[trigger] whole[i]).at,
        ) by {
            if j < placed.len() {
                assert(whole[i] == placed[i]);
                assert(whole[j] == placed[j]);
            } else {
                assert(whole[i] == placed[i]);
                assert(placed.to_multiset().count(placed[i]) > 0);
                if placed[i] != record {
                    assert(front.to_multiset().count(placed[i]) > 0);
                    let t = choose|t: int| 0 <= t < front.len() && front[t] == placed[i];
                    assert(front[t] == sorted[t]);
                    assert(!before(sorted[sorted.len() - 1].at, sorted[t].at));
                }
            }
        }
    } else {
        let whole = sorted.push(record);
        assert forall|i: int, j: int| 0 <= i < j < whole.len() implies !before(
            (#[trigger] whole[j]).at,
            (#[trigger] whole[i]).at,
        ) by {
            if j < sorted.len() {
                assert(whole[i] == sorted[i]);
                assert(whole[j] == sorted[j]);
            } else {
                assert(whole[i] == sorted[i]);
                assert(!before(sorted[sorted.len() - 1].at, sorted[i].at));
            }
        }
    }
}

/// The windows of a workspace stand in the order of their places, and
/// they are the windows that were reported: none is lost and none is
/// added.
pub proof fn by_position_orders_the_windows(records: Seq<Record>)
    ensures
        in_order(by_position(records)),
        by_position(records).to_multiset() == records.to_multiset(),
        by_position(records).len() == records.len(),
    decreases records.len(),
{
    broadcast use vstd::seq_lib::group_to_multiset_ensures;

    if records.len() > 0 {
        by_position_orders_the_windows(records.drop_last());
        placing_keeps_order(by_position(records.drop_last()), records.last());
        assert(records =~= records.drop_last().push(records.last()));
    } else {
        assert(by_position(records).to_multiset() =~= records.to_multiset());
    }
}

/// The windows of `records` that stand at `place`, in their order.
pub open spec fn at_place(records: Seq<Record>, place: (i16, i16)) -> Seq<Record>
    decreases records.len(),
{
    if records.len() == 0 {
        Seq::empty()
    } else if records.last().at == place {
        at_place(records.drop_last(), place).push(records.last())
    } else {
        at_place(records.drop_last(), place)
    }
}

/// A window that is put in goes behind the windows at its own place.
pub proof fn placing_is_stable(sorted: Seq<Record>, record: Record, place: (i16, i16))
    ensures
        at_place(placed_in(sorted, record), place) == if record.at == place {
            at_place(sorted, place).push(record)
        } else {
            at_place(sorted, place)
        },
    decreases sorted.len(),
{
    if sorted.len() == 0 {
        assert(seq![record].drop_last() =~= sorted);
    } else if before(record.at, sorted.last().at) {
        placing_is_stable(sorted.drop_last(), record, place);
        let placed = placed_in(sorted.drop_last(), record);
        assert(placed.push(sorted.last()).drop_last() =~= placed);
    } else {
        assert(sorted.push(record).drop_last() =~= sorted);
    }
}

/// Ordering is stable: the windows at one place keep the order in which
/// they were reported.
pub proof fn by_position_is_stable(records: Seq<Record>, place: (i16, i16))
    ensures
        at_place(by_position(records), place) == at_place(records, place),
    decreases records.len(),
{
    if records.len() > 0 {
        by_position_is_stable(records.drop_last(), place);
        placing_is_stable(by_position(records.drop_last()), records.last(), place);
    }
}

/// Whether the place `a` comes before the place `b`.
pub fn comes_before(a: (i16, i16), b: (i16, i16)) -> (r: bool)
    ensures
        r == before(a, b),
{
    a.0 < b.0 || (a.0 == b.0 && a.1 < b.1)
}

/// Puts `record` into `sorted`, behind every window that does not come
/// after it.
pub fn place(sorted: &mut Vec<ClientRecord>, record: ClientRecord)
    ensures
        final(sorted).deep_view() == placed_in(old(sorted).deep_view(), record@),
{
    let ghost start = sorted.deep_view();
    let mut j: usize = sorted.len();
    while j > 0 && comes_before(record.at, sorted[j - 1].at)
        invariant
            j <= sorted.len(),
            start == sorted.deep_view(),
            forall|t: int| j <= t < sorted.len() ==> before(record.at, start[t].at),
        decreases j,
    {
        j -= 1;
    }
    proof {
        placed_in_at(start, record@, j as int);
    }
    sorted.insert(j, record);
    assert(sorted.deep_view() =~= start.insert(j as int, record@));
}

/// The windows of `clients` that are on `workspace`, in the order of
/// their places. `identities` holds the workspace of every window.
fn sorted_members(
    clients: &Vec<ClientRecord>,
    identities: &Vec<WorkspaceType>,
    workspace: &WorkspaceType,
) -> (r: Vec<ClientRecord>)
    requires
        identities.len() == clients.len(),
        forall|n: int| 0 <= n < clients.len() ==> (#[trigger] identities@[n])@ == identity_of(
            clients@[n]@,
        ),
    ensures
        r.deep_view() == by_position(members(clients.deep_view(), workspace@)),
{
    let ghost all = clients.deep_view();
    let mut sorted: Vec<ClientRecord> = Vec::new();
    let mut n: usize = 0;
    assert(all.take(0) =~= Seq::empty());
    assert(sorted.deep_view() =~= Seq::empty());
    while n < clients.len()
        invariant
            n <= clients.len(),
            all == clients.deep_view(),
            identities.len() == clients.len(),
            forall|m: int|
                0 <= m < clients.len() ==> (#[trigger] identities@[m])@ == identity_of(
                    clients@[m]@,
                ),
            sorted.deep_view() == by_position(members(all.take(n as int), workspace@)),
        decreases clients.len() - n,
    {
        proof {
            assert(all.take(n + 1).drop_last() =~= all.take(n as int));
            assert(all.take(n + 1).last() == clients@[n as int]@);
        }
        if identities[n].same(workspace) {
            proof {
                let so_far = members(all.take(n as int), workspace@);
                assert(so_far.push(clients@[n as int]@).drop_last() =~= so_far);
            }
            place(&mut sorted, clients[n].clone());
        }
        n += 1;
    }
    assert(all.take(clients.len() as int) =~= all);
    sorted
}

impl Renamer {
    /// The workspaces that the reported windows show. Every workspace that
    /// was known before is among them, with or without windows, and every
    /// workspace of a window becomes known.
    pub fn get_workspaces_from_clients(
        &mut self,
        clients: Vec<ClientRecord>,
        active_client: String,
        config: &ConfigFile,
    ) -> (r: Vec<AppWorkspace>)
        ensures
            final(self).known_workspaces@ == known_after(
                old(self).known_workspaces@,
                clients.deep_view(),
            ),
            final(self).workspace_strings_cache == old(self).workspace_strings_cache,
            final(self).cfg == old(self).cfg,
            final(self).args == old(self).args,
            r.len() == final(self).known_workspaces.listed().len(),
            forall|k: int|
                0 <= k < r.len() ==> (#[trigger] r@[k])@ == workspace_of(
                    final(self).known_workspaces.listed()[k].0@,
                    final(self).known_workspaces.listed()[k].1,
                    clients.deep_view(),
                    active_client@,
                    config@,
                ),
    {
        let ghost all = clients.deep_view();
        let ghost settings = config@;
        let mut identities: Vec<WorkspaceType> = Vec::new();
        let mut n: usize = 0;
        assert(all.take(0) =~= Seq::empty());
        while n < clients.len()
            invariant
                n <= clients.len(),
                all == clients.deep_view(),
                identities.len() == n,
                forall|m: int|
                    0 <= m < n ==> (#[trigger] identities@[m])@ == identity_of(clients@[m]@),
                self.known_workspaces@ == known_after(
                    old(self).known_workspaces@,
                    all.take(n as int),
                ),
                self.workspace_strings_cache == old(self).workspace_strings_cache,
                self.cfg == old(self).cfg,
                self.args == old(self).args,
            decreases clients.len() - n,
        {
            let identity = workspace_type_from_parts(
                clients[n].workspace_id,
                clients[n].workspace_name.as_str(),
            );
            proof {
                assert(all.take(n + 1).drop_last() =~= all.take(n as int));
                assert(all.take(n + 1).last() == clients@[n as int]@);
            }
            self.known_workspaces.insert(identity.clone(), clients[n].workspace_id);
            identities.push(identity);
            n += 1;
        }
        assert(all.take(clients.len() as int) =~= all);
        let is_dedup_inactive_fullscreen = config.format.dedup_inactive_fullscreen;
        let known = self.known_workspaces.entries();
        let mut workspaces: Vec<AppWorkspace> = Vec::new();
        let mut k: usize = 0;
        while k < known.len()
            invariant
                k <= known.len(),
                all == clients.deep_view(),
                settings == config@,
                is_dedup_inactive_fullscreen == settings.format.dedup_inactive_fullscreen,
                known@ == self.known_workspaces.listed(),
                identities.len() == clients.len(),
                forall|m: int|
                    0 <= m < clients.len() ==> (#[trigger] identities@[m])@ == identity_of(
                        clients@[m]@,
                    ),
                workspaces.len() == k,
                forall|j: int|
                    0 <= j < k ==> (#[trigger] workspaces@[j])@ == workspace_of(
                        known@[j].0@,
                        known@[j].1,
                        all,
                        active_client@,
                        settings,
                    ),
            decreases known.len() - k,
        {
            let sorted = sorted_members(&clients, &identities, &known[k].0);
            let mut shown: Vec<AppClient> = Vec::new();
            let mut i: usize = 0;
            while i < sorted.len()
                invariant
                    i <= sorted.len(),
                    settings == config@,
                    is_dedup_inactive_fullscreen == settings.format.dedup_inactive_fullscreen,
                    shown.len() == i,
                    forall|j: int|
                        0 <= j < i ==> (#[trigger] shown@[j])@ == window(
                            sorted@[j]@,
                            active_client@,
                            settings,
                        ),
                decreases sorted.len() - i,
            {
                let client = sorted[i].clone();
                let is_active = active_client == client.address;
                let icon = self.parse_icon(
                    client.initial_class.clone(),
                    client.class.clone(),
                    client.initial_title.clone(),
                    client.title.clone(),
                    is_active,
                    config,
                );
                shown.push(AppClient::new(client, is_active, is_dedup_inactive_fullscreen, icon));
                i += 1;
            }
            assert(shown.deep_view() =~= windows(sorted.deep_view(), active_client@, settings));
            workspaces.push(AppWorkspace::new(known[k].0.clone(), known[k].1, shown));
            k += 1;
        }
        workspaces
    }
}

} // verus!
