//! Rendering: a unit of windows becomes text by a template that its state
//! selects, the units of a workspace are joined into the client segment,
//! and the segment is put into the workspace's own template.

use crate::client::{AppClient, Client, FullscreenMode};
use crate::config::{ConfigFile, ConfigFormatRaw, Format};
use crate::dedup::{counted, generate_counted_clients, units_view};
use crate::formatter::{
    formatted, formatter, known_placeholder_gives_its_text, other_names_change_nothing,
    placeholder_at, placeholder_step, settled_stays, substitute, substituted, substituted_from,
    unknown_placeholders_stay, vars_map, vars_map_push,
};
use crate::icon::Captures;
use crate::renamer::Renamer;
use crate::table::WorkspaceMap;
use crate::text::{
    digits, digits_are_distinct, digits_are_plain, digits_string, owned, push_all, superscript, superscript_string,
    to_chars, to_string, trim, trimmed,
};
use crate::workspace::{WorkspaceName, WorkspaceType};
use vstd::prelude::*;

verus! {

/// A workspace with its windows, in the order in which they are shown.
#[derive(Debug)]
pub struct AppWorkspace {
    pub id: WorkspaceType,
    pub hyprland_id: i32,
    pub clients: Vec<AppClient>,
}

/// A workspace as a mathematical value.
pub struct Workspace {
    pub id: WorkspaceName,
    pub hyprland_id: i32,
    pub clients: Seq<Client>,
}

impl View for AppWorkspace {
    type V = Workspace;

    open spec fn view(&self) -> Workspace {
        Workspace {
            id: self.id@,
            hyprland_id: self.hyprland_id,
            clients: self.clients.deep_view(),
        }
    }
}

impl DeepView for AppWorkspace {
    type V = Workspace;

    open spec fn deep_view(&self) -> Workspace {
        self@
    }
}

impl AppWorkspace {
    /// The workspace `id` with the handle `hyprland_id` and the windows
    /// `clients`.
    pub fn new(id: WorkspaceType, hyprland_id: i32, clients: Vec<AppClient>) -> (r: AppWorkspace)
        ensures
            r.id == id,
            r.hyprland_id == hyprland_id,
            r.clients == clients,
    {
        AppWorkspace { id, hyprland_id, clients }
    }
}

impl Clone for AppWorkspace {
    fn clone(&self) -> (r: AppWorkspace)
        ensures
            r@ == self@,
    {
        let mut clients: Vec<AppClient> = Vec::new();
        let mut i: usize = 0;
        while i < self.clients.len()
            invariant
                i <= self.clients.len(),
                clients.len() == i,
                forall|j: int| 0 <= j < i ==> clients@[j]@ == self.clients@[j]@,
            decreases self.clients.len() - i,
        {
            clients.push(self.clients[i].clone());
            i += 1;
        }
        assert(clients.deep_view() =~= self.clients.deep_view());
        AppWorkspace { id: self.id.clone(), hyprland_id: self.hyprland_id, clients }
    }
}

/// The states in which a unit is rendered. Each has its template.
#[derive(Clone, Copy, Debug, PartialEq, Eq, Structural)]
pub enum RenderState {
    Plain,
    Active,
    Fullscreen,
    DupPlain,
    DupActive,
    DupFullscreen,
}

/// The state of a unit of `counter` windows like `client`. A unit of more
/// than one window is a duplicate where deduplication is on. Fullscreen
/// counts for the focused window, and for the others unless fullscreen is
/// disregarded; it goes before focus.
pub open spec fn state_of(client: Client, counter: nat, format: Format) -> RenderState {
    let dup = format.dedup && counter > 1;
    let fullscreen = client.is_fullscreen != FullscreenMode::Normal && (client.is_active
        || !format.dedup_inactive_fullscreen);
    if fullscreen {
        if dup {
            RenderState::DupFullscreen
        } else {
            RenderState::Fullscreen
        }
    } else if dup {
        if client.is_active {
            RenderState::DupActive
        } else {
            RenderState::DupPlain
        }
    } else if client.is_active {
        RenderState::Active
    } else {
        RenderState::Plain
    }
}

/// The template of a state. The focused window alone has the template of
/// any single window: what marks it as focused is put around its icon.
pub open spec fn template_of(state: RenderState, format: Format) -> Seq<char> {
    match state {
        RenderState::Plain => format.client,
        RenderState::Active => format.client,
        RenderState::Fullscreen => format.client_fullscreen,
        RenderState::DupPlain => format.client_dup,
        RenderState::DupActive => format.client_dup_active,
        RenderState::DupFullscreen => format.client_dup_fullscreen,
    }
}

/// The state of a unit of `counter` windows like `client`.
pub fn render_state(client: &AppClient, counter: usize, format: &ConfigFormatRaw) -> (r:
    RenderState)
    ensures
        r == state_of(client@, counter as nat, format@),
{
    let dup = format.dedup && counter > 1;
    let fullscreen = client.is_fullscreen != FullscreenMode::Normal && (client.is_active
        || !format.dedup_inactive_fullscreen);
    if fullscreen {
        if dup {
            RenderState::DupFullscreen
        } else {
            RenderState::Fullscreen
        }
    } else if dup {
        if client.is_active {
            RenderState::DupActive
        } else {
            RenderState::DupPlain
        }
    } else if client.is_active {
        RenderState::Active
    } else {
        RenderState::Plain
    }
}

/// The names `match0`, `match1`, ... with the captured texts.
pub open spec fn capture_vars(captures: Option<Seq<Seq<char>>>) -> Seq<(Seq<char>, Seq<char>)> {
    match captures {
        Some(texts) => Seq::new(texts.len(), |k: int| ("match"@ + digits(k as nat), texts[k])),
        None => Seq::empty(),
    }
}

/// The names that every template of a unit may use, before the captures
/// and the icon.
pub open spec fn fixed_vars(client: Client, counter: nat, format: Format) -> Seq<
    (Seq<char>, Seq<char>),
> {
    Seq::empty().push(("title"@, client.title)).push(("class"@, client.class)).push(
        ("counter"@, digits(counter)),
    ).push(("counter_unfocused"@, digits((counter - 1) as nat))).push(
        ("counter_sup"@, superscript(counter)),
    ).push(("counter_unfocused_sup"@, superscript((counter - 1) as nat))).push(
        ("delim"@, format.delim),
    )
}

/// The names that every template of a unit may use, before the icon.
pub open spec fn counter_vars(client: Client, counter: nat, format: Format) -> Seq<
    (Seq<char>, Seq<char>),
> {
    fixed_vars(client, counter, format) + capture_vars(client.matched_rule.icon.captures)
}

/// Whether the icon of `client` is to be marked as that of the focused
/// window: the window is focused, and its icon comes from the rules of the
/// others.
pub open spec fn marks_focus(client: Client) -> bool {
    client.is_active && !client.matched_rule.active
}

/// The names with which the icon of the focused window is marked.
pub open spec fn focus_vars(client: Client, counter: nat, format: Format) -> Seq<
    (Seq<char>, Seq<char>),
> {
    counter_vars(client, counter, format).push(
        ("default_icon"@, client.matched_rule.icon.icon),
    )
}

/// The template that marks the focused window, with `default_icon` in the
/// place of `icon`.
pub open spec fn focus_template(format: Format) -> Seq<char> {
    substituted(format.client_active, vars_map(seq![("icon"@, "{default_icon}"@)]))
}

/// The text that stands for the icon of `client` in its templates.
pub open spec fn icon_text(client: Client, counter: nat, format: Format) -> Seq<char> {
    if marks_focus(client) {
        formatted(focus_template(format), vars_map(focus_vars(client, counter, format)))
    } else {
        client.matched_rule.icon.icon
    }
}

/// All the names that the template of a unit may use.
pub open spec fn unit_vars(client: Client, counter: nat, format: Format) -> Seq<
    (Seq<char>, Seq<char>),
> {
    let before = if marks_focus(client) {
        focus_vars(client, counter, format)
    } else {
        counter_vars(client, counter, format)
    };
    before.push(("icon"@, icon_text(client, counter, format))).push(
        ("client"@, format.client),
    ).push(("client_dup"@, format.client_dup)).push(
        ("client_fullscreen"@, format.client_fullscreen),
    )
}

/// The text of a unit of `counter` windows like `client`.
pub open spec fn rendered(client: Client, counter: nat, format: Format) -> Seq<char> {
    formatted(
        template_of(state_of(client, counter, format), format),
        vars_map(unit_vars(client, counter, format)),
    )
}

/// The texts of the units, in order.
pub open spec fn rendered_units(units: Seq<(Client, nat)>, format: Format) -> Seq<Seq<char>> {
    Seq::new(units.len(), |i: int| rendered(units[i].0, units[i].1, format))
}

/// `parts` with `delim` between every two of them.
pub open spec fn joined(parts: Seq<Seq<char>>, delim: Seq<char>) -> Seq<char>
    decreases parts.len(),
{
    if parts.len() == 0 {
        Seq::empty()
    } else if parts.len() == 1 {
        parts[0]
    } else {
        joined(parts.drop_last(), delim) + delim + parts.last()
    }
}

/// The delimiter between units: the configured one, formatted by itself.
pub open spec fn delimiter(format: Format) -> Seq<char> {
    formatted("{delim}"@, vars_map(seq![("delim"@, format.delim)]))
}

/// The client segment of a workspace's windows: the texts of their units,
/// joined by the delimiter, without white space at the ends.
pub open spec fn segment(clients: Seq<Client>, format: Format) -> Seq<char> {
    trim(joined(rendered_units(counted(clients, format.dedup), format), delimiter(format)))
}

/// The segments of `workspaces` by identity: of two workspaces with the
/// same identity the later one counts.
pub open spec fn segments(workspaces: Seq<Workspace>, format: Format) -> Map<
    WorkspaceName,
    Seq<char>,
>
    decreases workspaces.len(),
{
    if workspaces.len() == 0 {
        Map::empty()
    } else {
        segments(workspaces.drop_last(), format).insert(
            workspaces.last().id,
            segment(workspaces.last().clients, format),
        )
    }
}

/// The names of the captures begin with an `m`.
proof fn capture_names(captures: Option<Seq<Seq<char>>>)
    ensures
        forall|i: int|
            0 <= i < capture_vars(captures).len() ==> (#[trigger] capture_vars(captures)[i]).0.len()
                > 0 && capture_vars(captures)[i].0[0] == 'm',
{
    reveal_strlit("match");
}

/// In the templates of a unit the name `counter` stands for the count in
/// decimal digits and the name `icon` for the text of the icon, whatever
/// was captured.
pub proof fn counter_is_the_count(client: Client, counter: nat, format: Format)
    ensures
        vars_map(unit_vars(client, counter, format)).contains_key("counter"@),
        vars_map(unit_vars(client, counter, format))["counter"@] == digits(counter),
        vars_map(unit_vars(client, counter, format)).contains_key("icon"@),
        vars_map(unit_vars(client, counter, format))["icon"@] == icon_text(client, counter, format),
{
    reveal_strlit("title");
    reveal_strlit("class");
    reveal_strlit("counter");
    reveal_strlit("counter_unfocused");
    reveal_strlit("counter_sup");
    reveal_strlit("counter_unfocused_sup");
    reveal_strlit("delim");
    reveal_strlit("default_icon");
    reveal_strlit("icon");
    reveal_strlit("client");
    reveal_strlit("client_dup");
    reveal_strlit("client_fullscreen");
    let name = "counter"@;
    assert(name.len() == 7 && "counter_unfocused"@.len() == 17 && "counter_sup"@.len() == 11
        && "counter_unfocused_sup"@.len() == 21 && "delim"@.len() == 5 && "default_icon"@.len()
        == 12 && "icon"@.len() == 4 && "client"@.len() == 6 && "client_dup"@.len() == 10
        && "client_fullscreen"@.len() == 17);
    let start = Seq::<(Seq<char>, Seq<char>)>::empty().push(("title"@, client.title)).push(
        ("class"@, client.class),
    );
    let counted = start.push(("counter"@, digits(counter)));
    let a = counted.push(("counter_unfocused"@, digits((counter - 1) as nat)));
    let b = a.push(("counter_sup"@, superscript(counter)));
    let c = b.push(("counter_unfocused_sup"@, superscript((counter - 1) as nat)));
    let fixed = c.push(("delim"@, format.delim));
    assert(fixed == fixed_vars(client, counter, format));
    vars_map_push(start, ("counter"@, digits(counter)));
    vars_map_push(counted, ("counter_unfocused"@, digits((counter - 1) as nat)));
    vars_map_push(a, ("counter_sup"@, superscript(counter)));
    vars_map_push(b, ("counter_unfocused_sup"@, superscript((counter - 1) as nat)));
    vars_map_push(c, ("delim"@, format.delim));
    assert(vars_map(fixed).contains_key(name) && vars_map(fixed)[name] == digits(counter));
    let captured = capture_vars(client.matched_rule.icon.captures);
    capture_names(client.matched_rule.icon.captures);
    assert(name[0] == 'c');
    other_names_change_nothing(fixed, captured, name);
    let counters = counter_vars(client, counter, format);
    assert(vars_map(counters).contains_key(name) && vars_map(counters)[name] == digits(counter));
    let before = if marks_focus(client) {
        focus_vars(client, counter, format)
    } else {
        counters
    };
    if marks_focus(client) {
        vars_map_push(counters, ("default_icon"@, client.matched_rule.icon.icon));
    }
    assert(vars_map(before).contains_key(name) && vars_map(before)[name] == digits(counter));
    let first = before.push(("icon"@, icon_text(client, counter, format)));
    let second = first.push(("client"@, format.client));
    let third = second.push(("client_dup"@, format.client_dup));
    let all = third.push(("client_fullscreen"@, format.client_fullscreen));
    assert(all == unit_vars(client, counter, format));
    vars_map_push(before, ("icon"@, icon_text(client, counter, format)));
    vars_map_push(first, ("client"@, format.client));
    vars_map_push(second, ("client_dup"@, format.client_dup));
    vars_map_push(third, ("client_fullscreen"@, format.client_fullscreen));
}

/// In the templates of a unit the name `match` followed by the number of
/// a group stands for the text that the group captured.
pub proof fn capture_has_its_name(client: Client, counter: nat, format: Format, k: int)
    requires
        client.matched_rule.icon.captures is Some,
        0 <= k < client.matched_rule.icon.captures->0.len(),
    ensures
        vars_map(unit_vars(client, counter, format)).contains_key("match"@ + digits(k as nat)),
        vars_map(unit_vars(client, counter, format))["match"@ + digits(k as nat)]
            == client.matched_rule.icon.captures->0[k],
{
    reveal_strlit("match");
    reveal_strlit("default_icon");
    reveal_strlit("icon");
    reveal_strlit("client");
    reveal_strlit("client_dup");
    reveal_strlit("client_fullscreen");
    let texts = client.matched_rule.icon.captures->0;
    let name = "match"@ + digits(k as nat);
    assert(name[0] == 'm');
    assert("default_icon"@[0] == 'd' && "icon"@[0] == 'i' && "client"@[0] == 'c'
        && "client_dup"@[0] == 'c' && "client_fullscreen"@[0] == 'c');
    let fixed = fixed_vars(client, counter, format);
    let captured = capture_vars(client.matched_rule.icon.captures);
    let upto = captured.take(k);
    let rest = captured.skip(k + 1);
    assert(captured =~= upto.push(captured[k]) + rest);
    assert(fixed + captured =~= (fixed + upto).push(captured[k]) + rest);
    assert forall|i: int| 0 <= i < rest.len() implies (#[trigger] rest[i]).0 != name by {
        assert(rest[i] == captured[k + 1 + i]);
        if rest[i].0 == name {
            assert(rest[i].0.skip(5) =~= digits((k + 1 + i) as nat));
            assert(name.skip(5) =~= digits(k as nat));
            digits_are_distinct((k + 1 + i) as nat, k as nat);
        }
    }
    vars_map_push(fixed + upto, captured[k]);
    other_names_change_nothing((fixed + upto).push(captured[k]), rest, name);
    let counters = counter_vars(client, counter, format);
    assert(vars_map(counters).contains_key(name) && vars_map(counters)[name] == texts[k]);
    let before = if marks_focus(client) {
        focus_vars(client, counter, format)
    } else {
        counters
    };
    if marks_focus(client) {
        vars_map_push(counters, ("default_icon"@, client.matched_rule.icon.icon));
    }
    let first = before.push(("icon"@, icon_text(client, counter, format)));
    let second = first.push(("client"@, format.client));
    let third = second.push(("client_dup"@, format.client_dup));
    let all = third.push(("client_fullscreen"@, format.client_fullscreen));
    assert(all == unit_vars(client, counter, format));
    vars_map_push(before, ("icon"@, icon_text(client, counter, format)));
    vars_map_push(first, ("client"@, format.client));
    vars_map_push(second, ("client_dup"@, format.client_dup));
    vars_map_push(third, ("client_fullscreen"@, format.client_fullscreen));
}

/// Under the template `{icon}`, a window that is neither focused nor
/// fullscreen shows the text of its icon as it is, where that text holds
/// no opening brace.
pub proof fn plain_window_shows_its_icon(client: Client, counter: nat, format: Format)
    requires
        state_of(client, counter, format) == RenderState::Plain,
        format.client == "{icon}"@,
        forall|i: int|
            0 <= i < client.matched_rule.icon.icon.len() ==> client.matched_rule.icon.icon[i]
                != '{',
    ensures
        rendered(client, counter, format) == client.matched_rule.icon.icon,
{
    reveal_strlit("{icon}");
    reveal_strlit("icon");
    let text = client.matched_rule.icon.icon;
    let map = vars_map(unit_vars(client, counter, format));
    counter_is_the_count(client, counter, format);
    assert("{icon}"@ =~= seq!['{'] + "icon"@ + seq!['}']);
    known_placeholder_gives_its_text("icon"@, map);
    unknown_placeholders_stay(text, map);
    settled_stays(text, map, 3);
    reveal_with_fuel(crate::formatter::substituted_times, 2);
}

/// Under the template `{icon}{counter}`, a unit of several windows that are
/// neither focused nor fullscreen shows the text of its icon and then the
/// count, where the icon's text holds no opening brace.
pub proof fn duplicates_show_icon_and_count(client: Client, counter: nat, format: Format)
    requires
        state_of(client, counter, format) == RenderState::DupPlain,
        format.client_dup == "{icon}{counter}"@,
        forall|i: int|
            0 <= i < client.matched_rule.icon.icon.len() ==> client.matched_rule.icon.icon[i]
                != '{',
    ensures
        rendered(client, counter, format) == client.matched_rule.icon.icon + digits(counter),
{
    reveal_strlit("{icon}{counter}");
    reveal_strlit("icon");
    reveal_strlit("counter");
    let text = client.matched_rule.icon.icon;
    let template = "{icon}{counter}"@;
    let map = vars_map(unit_vars(client, counter, format));
    counter_is_the_count(client, counter, format);
    assert(template.subrange(1, 5) =~= "icon"@);
    assert(template.subrange(7, 14) =~= "counter"@);
    placeholder_step(template, map, 0, 5);
    placeholder_step(template, map, 6, 14);
    assert(substituted_from(template, map, 15) =~= Seq::empty());
    let shown = text + digits(counter);
    assert(substituted(template, map) =~= shown);
    digits_are_plain(counter);
    assert forall|at: int| 0 <= at < shown.len() implies !placeholder_at(shown, map, at) by {
        if at >= text.len() {
            assert(shown[at] == digits(counter)[at - text.len()]);
        }
    }
    unknown_placeholders_stay(shown, map);
    settled_stays(shown, map, 3);
    reveal_with_fuel(crate::formatter::substituted_times, 2);
}

fn pair(name: &str, text: String) -> (r: (String, String))
    ensures
        r.deep_view() == (name@, text@),
{
    (owned(name), text)
}

/// The name of the capture group `k`.
fn capture_name(k: usize) -> (r: String)
    ensures
        r@ == "match"@ + digits(k as nat),
{
    let mut out = to_chars("match");
    let number = to_chars(digits_string(k).as_str());
    push_all(&mut out, &number);
    to_string(&out)
}

/// The names of a unit before the icon.
fn counter_pairs(client: &AppClient, counter: usize, format: &ConfigFormatRaw) -> (r: Vec<
    (String, String),
>)
    requires
        counter >= 1,
    ensures
        r.deep_view() == counter_vars(client@, counter as nat, format@),
{
    let mut vars: Vec<(String, String)> = Vec::new();
    vars.push(pair("title", client.title.clone()));
    vars.push(pair("class", client.class.clone()));
    vars.push(pair("counter", digits_string(counter)));
    vars.push(pair("counter_unfocused", digits_string(counter - 1)));
    vars.push(pair("counter_sup", superscript_string(counter)));
    vars.push(pair("counter_unfocused_sup", superscript_string(counter - 1)));
    vars.push(pair("delim", format.delim.clone()));
    let ghost fixed = vars.deep_view();
    assert(fixed =~= fixed_vars(client@, counter as nat, format@));
    let captures: Captures = client.matched_rule.captures();
    match captures {
        Some(texts) => {
            let ghost named = capture_vars(Some(texts.deep_view()));
            let mut k: usize = 0;
            while k < texts.len()
                invariant
                    k <= texts.len(),
                    named == capture_vars(Some(texts.deep_view())),
                    vars.deep_view() == fixed + named.take(k as int),
                decreases texts.len() - k,
            {
                let ghost held = vars.deep_view();
                vars.push((capture_name(k), texts[k].clone()));
                assert(named[k as int] == ("match"@ + digits(k as nat), texts.deep_view()[k as int]));
                assert(vars.deep_view() =~= held.push(named[k as int]));
                assert(named.take(k + 1) =~= named.take(k as int).push(named[k as int]));
                assert(vars.deep_view() =~= fixed + named.take(k + 1));
                k += 1;
            }
            assert(named.take(texts.len() as int) =~= named);
        },
        None => {
            assert(vars.deep_view() =~= fixed + Seq::empty());
        },
    }
    vars
}

/// Joins `parts` with `delim` between every two of them.
pub fn join(parts: &Vec<String>, delim: &str) -> (r: String)
    ensures
        r@ == joined(parts.deep_view(), delim@),
{
    let mut out: Vec<char> = Vec::new();
    let between = to_chars(delim);
    let mut i: usize = 0;
    assert(parts.deep_view().take(0) =~= Seq::empty());
    while i < parts.len()
        invariant
            i <= parts.len(),
            between@ == delim@,
            out@ == joined(parts.deep_view().take(i as int), delim@),
        decreases parts.len() - i,
    {
        let ghost so_far = parts.deep_view().take(i as int);
        let ghost next = parts.deep_view().take(i + 1);
        assert(next.drop_last() =~= so_far);
        assert(next.last() == parts@[i as int]@);
        if i > 0 {
            push_all(&mut out, &between);
        }
        let part = to_chars(parts[i].as_str());
        push_all(&mut out, &part);
        assert(out@ =~= joined(next, delim@)) by {
            if i == 0 {
                assert(joined(so_far, delim@) =~= Seq::empty());
            }
        }
        i += 1;
    }
    assert(parts.deep_view().take(parts.len() as int) =~= parts.deep_view());
    to_string(&out)
}

impl Renamer {
    /// The client segment of every workspace, by identity.
    pub fn generate_workspaces_string(&self, workspaces: Vec<AppWorkspace>, config: &ConfigFile)
        -> (r: WorkspaceMap<String>)
        ensures
            r@ == segments(workspaces.deep_view(), config@.format),
    {
        let ghost format = config@.format;
        let mut strings: WorkspaceMap<String> = WorkspaceMap::new();
        let mut delim_vars: Vec<(String, String)> = Vec::new();
        delim_vars.push(pair("delim", config.format.delim.clone()));
        assert(delim_vars.deep_view() =~= seq![("delim"@, format.delim)]);
        let delim = formatter("{delim}", &delim_vars);
        let mut i: usize = 0;
        assert(workspaces.deep_view().take(0) =~= Seq::empty());
        while i < workspaces.len()
            invariant
                i <= workspaces.len(),
                format == config@.format,
                delim@ == delimiter(format),
                strings@ == segments(workspaces.deep_view().take(i as int), format),
            decreases workspaces.len() - i,
        {
            let workspace = workspaces[i].clone();
            let id = workspace.id;
            let ghost clients = workspace.clients.deep_view();
            let units = generate_counted_clients(workspace.clients, config.format.dedup);
            let mut texts: Vec<String> = Vec::new();
            let mut k: usize = 0;
            while k < units.len()
                invariant
                    k <= units.len(),
                    format == config@.format,
                    texts.len() == k,
                    forall|j: int| 0 <= j < units.len() ==> (#[trigger] units@[j]).1 >= 1,
                    forall|j: int|
                        0 <= j < k ==> (#[trigger] texts@[j])@ == rendered(
                            units@[j].0@,
                            units@[j].1 as nat,
                            format,
                        ),
                decreases units.len() - k,
            {
                texts.push(self.handle_new_client(&units[k].0, units[k].1, config));
                k += 1;
            }
            assert(texts.deep_view() =~= rendered_units(units_view(units@), format));
            let line = trimmed(&to_chars(join(&texts, delim.as_str()).as_str()));
            assert(line@ == segment(clients, format));
            proof {
                let next = workspaces.deep_view().take(i + 1);
                assert(next.drop_last() =~= workspaces.deep_view().take(i as int));
                assert(next.last() == workspaces@[i as int]@);
            }
            strings.insert(id, to_string(&line));
            i += 1;
        }
        assert(workspaces.deep_view().take(workspaces.len() as int) =~= workspaces.deep_view());
        strings
    }

    /// The text of a unit of `counter` windows like `client`.
    pub fn handle_new_client(&self, client: &AppClient, counter: usize, config: &ConfigFile) -> (r:
        String)
        requires
            counter >= 1,
        ensures
            r@ == rendered(client@, counter as nat, config@.format),
    {
        let format = &config.format;
        let mut vars = counter_pairs(client, counter, format);
        let raw = client.matched_rule.icon();
        let icon = if client.is_active && !client.matched_rule.is_active() {
            let mut renaming: Vec<(String, String)> = Vec::new();
            renaming.push(pair("icon", owned("{default_icon}")));
            assert(renaming.deep_view() =~= seq![("icon"@, "{default_icon}"@)]);
            let template = substitute(&to_chars(format.client_active.as_str()), &renaming);
            vars.push(pair("default_icon", raw));
            assert(vars.deep_view() =~= focus_vars(client@, counter as nat, format@));
            formatter(to_string(&template).as_str(), &vars)
        } else {
            raw
        };
        vars.push(pair("icon", icon));
        vars.push(pair("client", format.client.clone()));
        vars.push(pair("client_dup", format.client_dup.clone()));
        vars.push(pair("client_fullscreen", format.client_fullscreen.clone()));
        assert(vars.deep_view() =~= unit_vars(client@, counter as nat, format@));
        match render_state(client, counter, format) {
            RenderState::Plain | RenderState::Active => formatter(format.client.as_str(), &vars),
            RenderState::Fullscreen => formatter(format.client_fullscreen.as_str(), &vars),
            RenderState::DupPlain => formatter(format.client_dup.as_str(), &vars),
            RenderState::DupActive => formatter(format.client_dup_active.as_str(), &vars),
            RenderState::DupFullscreen => formatter(format.client_dup_fullscreen.as_str(), &vars),
        }
    }
}

} // verus!
