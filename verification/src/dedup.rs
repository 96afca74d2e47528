//! Deduplication: the windows of a workspace are cut into runs of the same
//! icon, and inside a run the windows that are equivalent are counted as
//! one unit. Units keep the order in which their first windows stand.

use crate::client::{equivalent, AppClient, Client};
use vstd::prelude::*;

verus! {

/// Whether two windows have the same resolved icon.
pub open spec fn same_icon(a: Client, b: Client) -> bool {
    a.matched_rule == b.matched_rule
}

/// The units as mathematical values.
pub open spec fn units_view(units: Seq<(AppClient, usize)>) -> Seq<(Client, nat)> {
    Seq::new(units.len(), |i: int| (units[i].0@, units[i].1 as nat))
}

/// The place of the first unit at or after `from` with which `client` may
/// be counted.
pub open spec fn first_equivalent(units: Seq<(Client, nat)>, client: Client, from: int) -> Option<
    int,
>
    decreases units.len() - from,
{
    if from < 0 || from >= units.len() {
        None
    } else if equivalent(units[from].0, client) {
        Some(from)
    } else {
        first_equivalent(units, client, from + 1)
    }
}

/// `units` after `client` was counted: with the first unit it is
/// equivalent to, or else as a new unit at the end.
pub open spec fn counted_with(units: Seq<(Client, nat)>, client: Client) -> Seq<(Client, nat)> {
    match first_equivalent(units, client, 0) {
        Some(i) => units.update(i, (units[i].0, units[i].1 + 1)),
        None => units.push((client, 1)),
    }
}

/// The units of one run.
pub open spec fn collapsed(run: Seq<Client>) -> Seq<(Client, nat)>
    decreases run.len(),
{
    if run.len() == 0 {
        Seq::empty()
    } else {
        counted_with(collapsed(run.drop_last()), run.last())
    }
}

/// Where the run that begins at `start` ends: the first place at or after
/// `at` whose window has another icon, or the end of the list.
pub open spec fn run_end(clients: Seq<Client>, start: int, at: int) -> int
    decreases clients.len() - at,
{
    if at < 0 || at >= clients.len() || start < 0 || start >= clients.len() {
        clients.len() as int
    } else if same_icon(clients[start], clients[at]) {
        run_end(clients, start, at + 1)
    } else {
        at
    }
}

/// The units of the windows from `from` on: run after run.
pub open spec fn counted_from(clients: Seq<Client>, from: int) -> Seq<(Client, nat)>
    decreases clients.len() - from,
{
    if from < 0 || from >= clients.len() {
        Seq::empty()
    } else {
        let end = run_end(clients, from, from + 1);
        if from < end <= clients.len() {
            collapsed(clients.subrange(from, end)) + counted_from(clients, end)
        } else {
            Seq::empty()
        }
    }
}

/// Every window as a unit of its own.
pub open spec fn singles(clients: Seq<Client>) -> Seq<(Client, nat)> {
    Seq::new(clients.len(), |i: int| (clients[i], 1nat))
}

/// The units of a workspace's windows.
pub open spec fn counted(clients: Seq<Client>, need_dedup: bool) -> Seq<(Client, nat)> {
    if need_dedup {
        counted_from(clients, 0)
    } else {
        singles(clients)
    }
}

/// A run ends where the first window with another icon stands.
proof fn run_ends_at(clients: Seq<Client>, start: int, at: int, end: int)
    requires
        0 <= start < at <= end <= clients.len(),
        forall|i: int| at <= i < end ==> same_icon(clients[start], clients[i]),
        end < clients.len() ==> !same_icon(clients[start], clients[end]),
    ensures
        run_end(clients, start, at) == end,
    decreases end - at,
{
    if at < end {
        run_ends_at(clients, start, at + 1, end);
    }
}

/// Counting one more window of a run.
proof fn collapsed_step(clients: Seq<Client>, begin: int, i: int)
    requires
        0 <= begin <= i < clients.len(),
    ensures
        collapsed(clients.subrange(begin, i + 1)) == counted_with(
            collapsed(clients.subrange(begin, i)),
            clients[i],
        ),
{
    assert(clients.subrange(begin, i + 1).drop_last() =~= clients.subrange(begin, i));
    assert(clients.subrange(begin, i + 1).last() == clients[i]);
}

/// The units from the beginning of a run on are the units of the run,
/// then the units of what follows it.
pub proof fn counted_from_run(clients: Seq<Client>, begin: int, end: int)
    requires
        0 <= begin < end <= clients.len(),
        forall|j: int| begin <= j < end ==> same_icon(clients[begin], clients[j]),
        end < clients.len() ==> !same_icon(clients[begin], clients[end]),
    ensures
        counted_from(clients, begin) == collapsed(clients.subrange(begin, end)) + counted_from(
            clients,
            end,
        ),
{
    run_ends_at(clients, begin, begin + 1, end);
}

/// The place in `units`, at or after `open`, of the first unit with which
/// `client` may be counted.
fn find_unit(units: &Vec<(AppClient, usize)>, open: usize, client: &AppClient) -> (r: Option<usize>)
    requires
        open <= units.len(),
    ensures
        match r {
            Some(j) => open <= j < units.len() && first_equivalent(
                units_view(units@).skip(open as int),
                client@,
                0,
            ) == Some(j - open),
            None => first_equivalent(units_view(units@).skip(open as int), client@, 0) is None,
        },
{
    let ghost run = units_view(units@).skip(open as int);
    let mut j: usize = open;
    while j < units.len()
        invariant
            open <= j <= units.len(),
            run == units_view(units@).skip(open as int),
            first_equivalent(run, client@, 0) == first_equivalent(run, client@, j - open),
        decreases units.len() - j,
    {
        assert(run[j - open] == units_view(units@)[j as int]);
        if units[j].0 == *client {
            return Some(j);
        }
        j += 1;
    }
    None
}

/// Counts one more window with the unit at `j`.
fn count_with(units: &mut Vec<(AppClient, usize)>, j: usize)
    requires
        j < old(units).len(),
        old(units)[j as int].1 < usize::MAX,
    ensures
        units_view(final(units)@) == units_view(old(units)@).update(
            j as int,
            (old(units)[j as int].0@, (old(units)[j as int].1 + 1) as nat),
        ),
        final(units).len() == old(units).len(),
        forall|k: int|
            0 <= k < old(units).len() && k != j ==> (#[trigger] final(units)@[k]).1 == old(
                units,
            )@[k].1,
        final(units)@[j as int].1 == old(units)@[j as int].1 + 1,
{
    let (client, count) = units.remove(j);
    units.insert(j, (client, count + 1));
    assert(units_view(units@) =~= units_view(old(units)@).update(
        j as int,
        (old(units)[j as int].0@, (old(units)[j as int].1 + 1) as nat),
    ));
}

/// Adds a window as a unit of its own.
fn count_alone(units: &mut Vec<(AppClient, usize)>, client: &AppClient)
    ensures
        units_view(final(units)@) == units_view(old(units)@).push((client@, 1nat)),
        final(units).len() == old(units).len() + 1,
        forall|k: int|
            0 <= k < old(units).len() ==> (#[trigger] final(units)@[k]).1 == old(units)@[k].1,
        final(units)@[old(units).len() as int].1 == 1,
{
    units.push((client.clone(), 1));
    assert(units_view(units@) =~= units_view(old(units)@).push((client@, 1nat)));
}

/// Counting a window into the open run leaves the closed runs alone.
proof fn counted_in_open_run(
    before: Seq<(Client, nat)>,
    after: Seq<(Client, nat)>,
    open: int,
    client: Client,
)
    requires
        0 <= open <= before.len(),
        match first_equivalent(before.skip(open), client, 0) {
            Some(k) => 0 <= k < before.len() - open && after == before.update(
                open + k,
                (before[open + k].0, before[open + k].1 + 1),
            ),
            None => after == before.push((client, 1nat)),
        },
    ensures
        after.take(open) == before.take(open),
        after.skip(open) == counted_with(before.skip(open), client),
{
    assert(after.take(open) =~= before.take(open));
    match first_equivalent(before.skip(open), client, 0) {
        Some(k) => {
            assert(before.skip(open)[k] == before[open + k]);
            assert(after.skip(open) =~= before.skip(open).update(
                k,
                (before[open + k].0, before[open + k].1 + 1),
            ));
        },
        None => {
            assert(after.skip(open) =~= before.skip(open).push((client, 1nat)));
        },
    }
}

/// Closing the open run: all units so far are closed, and the new run has
/// none yet.
proof fn run_closed(
    clients: Seq<Client>,
    units: Seq<(Client, nat)>,
    open: int,
    begin: int,
    i: int,
)
    requires
        0 <= open <= units.len(),
        0 <= begin < i < clients.len(),
        forall|j: int| begin <= j < i ==> same_icon(clients[begin], clients[j]),
        !same_icon(clients[begin], clients[i]),
        counted_from(clients, 0) == units.take(open) + counted_from(clients, begin),
        units.skip(open) == collapsed(clients.subrange(begin, i)),
    ensures
        counted_from(clients, 0) == units.take(units.len() as int) + counted_from(clients, i),
        units.skip(units.len() as int) == collapsed(clients.subrange(i, i)),
{
    counted_from_run(clients, begin, i);
    assert(units.take(units.len() as int) =~= units.take(open) + units.skip(open));
    assert(clients.subrange(i, i) =~= Seq::empty());
    assert(units.skip(units.len() as int) =~= Seq::empty());
    assert(units.take(open) + (units.skip(open) + counted_from(clients, i)) =~= (units.take(open)
        + units.skip(open)) + counted_from(clients, i));
}

/// At the end of the list the open run is the last one.
proof fn last_run_closed(clients: Seq<Client>, units: Seq<(Client, nat)>, open: int, begin: int)
    requires
        0 <= open <= units.len(),
        0 <= begin <= clients.len(),
        clients.len() > 0 ==> begin < clients.len(),
        forall|j: int| begin <= j < clients.len() ==> same_icon(clients[begin], clients[j]),
        counted_from(clients, 0) == units.take(open) + counted_from(clients, begin),
        units.skip(open) == collapsed(clients.subrange(begin, clients.len() as int)),
    ensures
        counted_from(clients, 0) == units,
{
    assert(units =~= units.take(open) + units.skip(open));
    if begin < clients.len() {
        counted_from_run(clients, begin, clients.len() as int);
        assert(collapsed(clients.subrange(begin, clients.len() as int)) + counted_from(
            clients,
            clients.len() as int,
        ) =~= collapsed(clients.subrange(begin, clients.len() as int)));
    } else {
        assert(clients.subrange(begin, clients.len() as int) =~= Seq::empty());
        assert(units.take(open) + Seq::<(Client, nat)>::empty() =~= units.take(open));
        assert(units.skip(open) =~= Seq::empty());
    }
}

/// How many windows the units count together.
pub open spec fn total(units: Seq<(Client, nat)>) -> nat
    decreases units.len(),
{
    if units.len() == 0 {
        0
    } else {
        total(units.drop_last()) + units.last().1
    }
}

/// The windows of two lists of units together.
proof fn total_of_both(first: Seq<(Client, nat)>, second: Seq<(Client, nat)>)
    ensures
        total(first + second) == total(first) + total(second),
    decreases second.len(),
{
    if second.len() == 0 {
        assert(first + second =~= first);
    } else {
        total_of_both(first, second.drop_last());
        assert((first + second).drop_last() =~= first + second.drop_last());
    }
}

/// Counting one more window in one unit.
proof fn total_after_update(units: Seq<(Client, nat)>, i: int)
    requires
        0 <= i < units.len(),
    ensures
        total(units.update(i, (units[i].0, units[i].1 + 1))) == total(units) + 1,
    decreases units.len(),
{
    let after = units.update(i, (units[i].0, units[i].1 + 1));
    if i == units.len() - 1 {
        assert(after.drop_last() =~= units.drop_last());
    } else {
        total_after_update(units.drop_last(), i);
        assert(after.drop_last() =~= units.drop_last().update(i, (units[i].0, units[i].1 + 1)));
    }
}

/// The place that `first_equivalent` finds lies among the units.
pub proof fn first_equivalent_is_a_place(units: Seq<(Client, nat)>, client: Client, from: int)
    requires
        0 <= from,
    ensures
        match first_equivalent(units, client, from) {
            Some(i) => from <= i < units.len() && equivalent(units[i].0, client) && forall|j: int|
                from <= j < i ==> !equivalent(units[j].0, client),
            None => forall|j: int| from <= j < units.len() ==> !equivalent(units[j].0, client),
        },
    decreases units.len() - from,
{
    if from < units.len() && !equivalent(units[from].0, client) {
        first_equivalent_is_a_place(units, client, from + 1);
    }
}

/// The units of a run count every window of the run once.
pub proof fn run_counts_every_window(run: Seq<Client>)
    ensures
        total(collapsed(run)) == run.len(),
    decreases run.len(),
{
    if run.len() > 0 {
        run_counts_every_window(run.drop_last());
        let units = collapsed(run.drop_last());
        first_equivalent_is_a_place(units, run.last(), 0);
        match first_equivalent(units, run.last(), 0) {
            Some(i) => {
                total_after_update(units, i);
            },
            None => {
                assert(units.push((run.last(), 1nat)).drop_last() =~= units);
            },
        }
    }
}

/// The end of a run lies behind its beginning and in the list.
proof fn run_end_in_range(clients: Seq<Client>, start: int, at: int)
    requires
        0 <= start < at <= clients.len(),
    ensures
        at <= run_end(clients, start, at) <= clients.len(),
    decreases clients.len() - at,
{
    if at < clients.len() && same_icon(clients[start], clients[at]) {
        run_end_in_range(clients, start, at + 1);
    }
}

/// The units count every window once, with deduplication or without.
pub proof fn units_count_every_window(clients: Seq<Client>, need_dedup: bool)
    ensures
        total(counted(clients, need_dedup)) == clients.len(),
{
    if need_dedup {
        counted_from_counts(clients, 0);
    } else {
        singles_count(clients, clients.len() as int);
        assert(singles(clients).take(clients.len() as int) =~= singles(clients));
    }
}

/// The units from `from` on count the windows from `from` on.
proof fn counted_from_counts(clients: Seq<Client>, from: int)
    requires
        0 <= from <= clients.len(),
    ensures
        total(counted_from(clients, from)) == clients.len() - from,
    decreases clients.len() - from,
{
    if from < clients.len() {
        run_end_in_range(clients, from, from + 1);
        let end = run_end(clients, from, from + 1);
        counted_from_counts(clients, end);
        run_counts_every_window(clients.subrange(from, end));
        total_of_both(collapsed(clients.subrange(from, end)), counted_from(clients, end));
    }
}

/// The first `n` single units count `n` windows.
proof fn singles_count(clients: Seq<Client>, n: int)
    requires
        0 <= n <= clients.len(),
    ensures
        total(singles(clients).take(n)) == n,
    decreases n,
{
    if n > 0 {
        singles_count(clients, n - 1);
        assert(singles(clients).take(n).drop_last() =~= singles(clients).take(n - 1));
    }
}

/// Windows that are all equivalent to the first of them make one unit,
/// which counts them all.
pub proof fn equivalent_windows_make_one_unit(clients: Seq<Client>)
    requires
        clients.len() > 0,
        forall|i: int| 0 <= i < clients.len() ==> equivalent(clients[0], #[trigger] clients[i]),
    ensures
        collapsed(clients) == seq![(clients[0], clients.len())],
        counted(clients, true) == seq![(clients[0], clients.len())],
    decreases clients.len(),
{
    let front = clients.drop_last();
    if front.len() == 0 {
        assert(collapsed(front) =~= Seq::empty());
        assert(Seq::<(Client, nat)>::empty().push((clients.last(), 1nat)) =~= seq![
            (clients[0], clients.len()),
        ]);
    } else {
        assert forall|i: int| 0 <= i < front.len() implies equivalent(
            front[0],
            #[trigger] front[i],
        ) by {
            assert(front[i] == clients[i]);
        }
        equivalent_windows_make_one_unit(front);
        assert(equivalent(clients[0], clients[clients.len() - 1]));
        assert(collapsed(front)[0].0 == clients[0]);
        assert(collapsed(front).update(0, (clients[0], front.len() + 1)) =~= seq![
            (clients[0], clients.len()),
        ]);
    }
    assert forall|j: int| 0 <= j < clients.len() implies same_icon(clients[0], clients[j]) by {
        assert(equivalent(clients[0], clients[j]));
    }
    counted_from_run(clients, 0, clients.len() as int);
    assert(clients.subrange(0, clients.len() as int) =~= clients);
    assert(collapsed(clients) + counted_from(clients, clients.len() as int) =~= collapsed(clients));
}

/// The first `m` windows of a list in which one window, at `p`, is not
/// equivalent to the first, and all the others are.
proof fn one_apart_so_far(clients: Seq<Client>, p: int, m: int)
    requires
        0 < p < m <= clients.len(),
        forall|i: int|
            0 <= i < clients.len() && i != p ==> equivalent(clients[0], #[trigger] clients[i]),
        !equivalent(clients[0], clients[p]),
    ensures
        collapsed(clients.take(m)) == seq![(clients[0], (m - 1) as nat), (clients[p], 1nat)],
    decreases m,
{
    let front = clients.take(m - 1);
    assert(clients.take(m).drop_last() =~= front);
    assert(clients.take(m).last() == clients[m - 1]);
    if m == p + 1 {
        assert forall|i: int| 0 <= i < front.len() implies equivalent(
            front[0],
            #[trigger] front[i],
        ) by {
            assert(front[i] == clients[i]);
        }
        equivalent_windows_make_one_unit(front);
        let units = collapsed(front);
        assert(first_equivalent(units, clients[p], 1) is None);
        assert(units.push((clients[p], 1nat)) =~= seq![
            (clients[0], (m - 1) as nat),
            (clients[p], 1nat),
        ]);
    } else {
        one_apart_so_far(clients, p, m - 1);
        let units = collapsed(front);
        assert(equivalent(clients[0], clients[m - 1]));
        assert(units.update(0, (units[0].0, units[0].1 + 1)) =~= seq![
            (clients[0], (m - 1) as nat),
            (clients[p], 1nat),
        ]);
    }
}

/// Where the windows of a workspace have one icon and all but one of them
/// are equivalent to the first, they make two units: the first counts all
/// of them but the one, and the one stands alone behind it.
pub proof fn one_window_apart_stands_alone(clients: Seq<Client>, p: int)
    requires
        0 < p < clients.len(),
        forall|i: int| 0 <= i < clients.len() ==> same_icon(clients[0], #[trigger] clients[i]),
        forall|i: int|
            0 <= i < clients.len() && i != p ==> equivalent(clients[0], #[trigger] clients[i]),
        !equivalent(clients[0], clients[p]),
    ensures
        counted(clients, true) == seq![
            (clients[0], (clients.len() - 1) as nat),
            (clients[p], 1nat),
        ],
{
    one_apart_so_far(clients, p, clients.len() as int);
    assert(clients.take(clients.len() as int) =~= clients);
    counted_from_run(clients, 0, clients.len() as int);
    assert(clients.subrange(0, clients.len() as int) =~= clients);
    assert(collapsed(clients) + counted_from(clients, clients.len() as int) =~= collapsed(clients));
}

/// Counts the windows of `clients` into units. With `need_dedup` the
/// windows are cut into runs of the same icon and equivalent windows of a
/// run are counted together; without it every window is a unit.
pub fn generate_counted_clients(clients: Vec<AppClient>, need_dedup: bool) -> (r: Vec<
    (AppClient, usize),
>)
    ensures
        units_view(r@) == counted(clients.deep_view(), need_dedup),
        forall|j: int| 0 <= j < r.len() ==> (#[trigger] r@[j]).1 >= 1,
{
    let ghost all = clients.deep_view();
    let mut units: Vec<(AppClient, usize)> = Vec::new();
    if !need_dedup {
        let mut i: usize = 0;
        while i < clients.len()
            invariant
                i <= clients.len(),
                all == clients.deep_view(),
                units.len() == i,
                forall|j: int|
                    0 <= j < i ==> (#[trigger] units@[j]).0@ == all[j] && units@[j].1 == 1,
            decreases clients.len() - i,
        {
            units.push((clients[i].clone(), 1));
            i += 1;
        }
        assert(units_view(units@) =~= singles(all));
        return units;
    }
    let mut open: usize = 0;
    let ghost mut begin: int = 0;
    let mut i: usize = 0;
    assert(all.subrange(0, 0) =~= Seq::empty());
    assert(units_view(units@) =~= Seq::empty());
    assert(units_view(units@).take(0) + counted_from(all, 0) =~= counted_from(all, 0));
    assert(units_view(units@).skip(0) =~= Seq::empty());
    while i < clients.len()
        invariant
            i <= clients.len(),
            all == clients.deep_view(),
            0 <= begin <= i,
            i > 0 ==> begin < i,
            open <= units.len(),
            forall|j: int| begin <= j < i ==> same_icon(all[begin], all[j]),
            forall|j: int| 0 <= j < units.len() ==> 1 <= (#[trigger] units@[j]).1 <= i,
            counted_from(all, 0) == units_view(units@).take(open as int) + counted_from(
                all,
                begin,
            ),
            units_view(units@).skip(open as int) == collapsed(all.subrange(begin, i as int)),
        decreases clients.len() - i,
    {
        if i > 0 && !clients[i - 1].matched_rule.same(&clients[i].matched_rule) {
            proof {
                assert(same_icon(all[begin], all[i - 1]));
                run_closed(all, units_view(units@), open as int, begin, i as int);
                begin = i as int;
            }
            open = units.len();
        } else {
            assert(same_icon(all[begin], all[i as int])) by {
                if i > 0 {
                    assert(same_icon(all[begin], all[i - 1]));
                }
            }
        }
        let ghost before = units_view(units@);
        proof {
            collapsed_step(all, begin, i as int);
        }
        match find_unit(&units, open, &clients[i]) {
            Some(j) => {
                assert(before.skip(open as int)[j - open] == before[j as int]);
                count_with(&mut units, j);
            },
            None => {
                count_alone(&mut units, &clients[i]);
            },
        }
        proof {
            counted_in_open_run(before, units_view(units@), open as int, all[i as int]);
        }
        i += 1;
    }
    proof {
        last_run_closed(all, units_view(units@), open as int, begin);
    }
    units
}

} // verus!
