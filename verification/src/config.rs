//! The configuration that one cycle works on: the rules of every tier, for
//! the focused window and for the others, the templates, the display names
//! of workspaces and the windows to leave out.

use crate::text::owned;
use vstd::prelude::*;

verus! {

/// Rules as mathematical values: pairs of a pattern and an icon, in the
/// order in which they are tried.
pub type Rules = Seq<(Seq<char>, Seq<char>)>;

/// Rules on a title inside rules on a class, as mathematical values.
pub type NestedRules = Seq<(Seq<char>, Seq<(Seq<char>, Seq<char>)>)>;

/// The templates and the switches of the deduplication.
#[derive(Debug, PartialEq, Eq)]
pub struct ConfigFormatRaw {
    pub dedup: bool,
    pub dedup_inactive_fullscreen: bool,
    pub delim: String,
    pub workspace: String,
    pub workspace_empty: String,
    pub client: String,
    pub client_fullscreen: String,
    pub client_active: String,
    pub client_dup: String,
    pub client_dup_fullscreen: String,
    pub client_dup_active: String,
}

/// The templates as mathematical values.
pub struct Format {
    pub dedup: bool,
    pub dedup_inactive_fullscreen: bool,
    pub delim: Seq<char>,
    pub workspace: Seq<char>,
    pub workspace_empty: Seq<char>,
    pub client: Seq<char>,
    pub client_fullscreen: Seq<char>,
    pub client_active: Seq<char>,
    pub client_dup: Seq<char>,
    pub client_dup_fullscreen: Seq<char>,
    pub client_dup_active: Seq<char>,
}

impl View for ConfigFormatRaw {
    type V = Format;

    open spec fn view(&self) -> Format {
        Format {
            dedup: self.dedup,
            dedup_inactive_fullscreen: self.dedup_inactive_fullscreen,
            delim: self.delim@,
            workspace: self.workspace@,
            workspace_empty: self.workspace_empty@,
            client: self.client@,
            client_fullscreen: self.client_fullscreen@,
            client_active: self.client_active@,
            client_dup: self.client_dup@,
            client_dup_fullscreen: self.client_dup_fullscreen@,
            client_dup_active: self.client_dup_active@,
        }
    }
}

/// The templates that hold where nothing else is configured.
pub open spec fn default_format() -> Format {
    Format {
        dedup: false,
        dedup_inactive_fullscreen: false,
        delim: " "@,
        workspace: "{id}:{delim}{clients}"@,
        workspace_empty: "{id}"@,
        client: "{icon}"@,
        client_fullscreen: "[{icon}]"@,
        client_active: "*{icon}*"@,
        client_dup: "{client}{counter_sup}"@,
        client_dup_fullscreen: "[{client}]{delim}{icon}{counter_unfocused_sup}"@,
        client_dup_active: "*{icon}*{delim}{icon}{counter_unfocused_sup}"@,
    }
}

impl Default for ConfigFormatRaw {
    fn default() -> (r: ConfigFormatRaw)
        ensures
            r@ == default_format(),
    {
        ConfigFormatRaw {
            dedup: false,
            dedup_inactive_fullscreen: false,
            delim: owned(" "),
            workspace: owned("{id}:{delim}{clients}"),
            workspace_empty: owned("{id}"),
            client: owned("{icon}"),
            client_fullscreen: owned("[{icon}]"),
            client_active: owned("*{icon}*"),
            client_dup: owned("{client}{counter_sup}"),
            client_dup_fullscreen: owned("[{client}]{delim}{icon}{counter_unfocused_sup}"),
            client_dup_active: owned("*{icon}*{delim}{icon}{counter_unfocused_sup}"),
        }
    }
}

impl Clone for ConfigFormatRaw {
    fn clone(&self) -> (r: ConfigFormatRaw)
        ensures
            r@ == self@,
    {
        ConfigFormatRaw {
            dedup: self.dedup,
            dedup_inactive_fullscreen: self.dedup_inactive_fullscreen,
            delim: self.delim.clone(),
            workspace: self.workspace.clone(),
            workspace_empty: self.workspace_empty.clone(),
            client: self.client.clone(),
            client_fullscreen: self.client_fullscreen.clone(),
            client_active: self.client_active.clone(),
            client_dup: self.client_dup.clone(),
            client_dup_fullscreen: self.client_dup_fullscreen.clone(),
            client_dup_active: self.client_dup_active.clone(),
        }
    }
}

/// A copy of a list of rules.
pub fn clone_rules(rules: &Vec<(String, String)>) -> (r: Vec<(String, String)>)
    ensures
        r.deep_view() == rules.deep_view(),
{
    let mut r: Vec<(String, String)> = Vec::new();
    let mut i: usize = 0;
    while i < rules.len()
        invariant
            i <= rules.len(),
            r.len() == i,
            forall|j: int| 0 <= j < i ==> r@[j].deep_view() == rules@[j].deep_view(),
        decreases rules.len() - i,
    {
        r.push((rules[i].0.clone(), rules[i].1.clone()));
        i += 1;
    }
    assert(r.deep_view() =~= rules.deep_view());
    r
}

/// A copy of a list of nested rules.
pub fn clone_nested_rules(rules: &Vec<(String, Vec<(String, String)>)>) -> (r: Vec<
    (String, Vec<(String, String)>),
>)
    ensures
        r.deep_view() == rules.deep_view(),
{
    let mut r: Vec<(String, Vec<(String, String)>)> = Vec::new();
    let mut i: usize = 0;
    while i < rules.len()
        invariant
            i <= rules.len(),
            r.len() == i,
            forall|j: int| 0 <= j < i ==> r@[j].deep_view() == rules@[j].deep_view(),
        decreases rules.len() - i,
    {
        r.push((rules[i].0.clone(), clone_rules(&rules[i].1)));
        i += 1;
    }
    assert(r.deep_view() =~= rules.deep_view());
    r
}

/// The rules of every tier under one view: that of the focused window, or
/// that of the others.
pub struct RuleSet {
    pub initial_title_in_initial_class: NestedRules,
    pub initial_title_in_class: NestedRules,
    pub title_in_initial_class: NestedRules,
    pub title_in_class: NestedRules,
    pub initial_class: Rules,
    pub class: Rules,
}

/// A configuration: patterns are kept as text.
#[derive(Debug, PartialEq, Eq)]
pub struct ConfigFile {
    pub class: Vec<(String, String)>,
    pub class_active: Vec<(String, String)>,
    pub initial_class: Vec<(String, String)>,
    pub initial_class_active: Vec<(String, String)>,
    pub workspaces_name: Vec<(String, String)>,
    pub title_in_class: Vec<(String, Vec<(String, String)>)>,
    pub title_in_class_active: Vec<(String, Vec<(String, String)>)>,
    pub title_in_initial_class: Vec<(String, Vec<(String, String)>)>,
    pub title_in_initial_class_active: Vec<(String, Vec<(String, String)>)>,
    pub initial_title_in_class: Vec<(String, Vec<(String, String)>)>,
    pub initial_title_in_class_active: Vec<(String, Vec<(String, String)>)>,
    pub initial_title_in_initial_class: Vec<(String, Vec<(String, String)>)>,
    pub initial_title_in_initial_class_active: Vec<(String, Vec<(String, String)>)>,
    pub exclude: Vec<(String, String)>,
    pub format: ConfigFormatRaw,
}

/// A configuration as a mathematical value.
pub struct Settings {
    pub inactive: RuleSet,
    pub active: RuleSet,
    pub workspaces_name: Rules,
    pub exclude: Rules,
    pub format: Format,
}

impl Settings {
    /// The rules under the view of the focused window, or of the others.
    pub open spec fn rules(self, active: bool) -> RuleSet {
        if active {
            self.active
        } else {
            self.inactive
        }
    }
}

impl View for ConfigFile {
    type V = Settings;

    open spec fn view(&self) -> Settings {
        Settings {
            inactive: RuleSet {
                initial_title_in_initial_class: self.initial_title_in_initial_class.deep_view(),
                initial_title_in_class: self.initial_title_in_class.deep_view(),
                title_in_initial_class: self.title_in_initial_class.deep_view(),
                title_in_class: self.title_in_class.deep_view(),
                initial_class: self.initial_class.deep_view(),
                class: self.class.deep_view(),
            },
            active: RuleSet {
                initial_title_in_initial_class:
                    self.initial_title_in_initial_class_active.deep_view(),
                initial_title_in_class: self.initial_title_in_class_active.deep_view(),
                title_in_initial_class: self.title_in_initial_class_active.deep_view(),
                title_in_class: self.title_in_class_active.deep_view(),
                initial_class: self.initial_class_active.deep_view(),
                class: self.class_active.deep_view(),
            },
            workspaces_name: self.workspaces_name.deep_view(),
            exclude: self.exclude.deep_view(),
            format: self.format@,
        }
    }
}

/// The configuration that holds where nothing is configured: one rule,
/// which gives every class a glyph followed by the class, and the default
/// templates.
pub open spec fn default_settings() -> Settings {
    let none = RuleSet {
        initial_title_in_initial_class: Seq::empty(),
        initial_title_in_class: Seq::empty(),
        title_in_initial_class: Seq::empty(),
        title_in_class: Seq::empty(),
        initial_class: Seq::empty(),
        class: Seq::empty(),
    };
    Settings {
        inactive: RuleSet { class: seq![("DEFAULT"@, "\u{f059} {class}"@)], ..none },
        active: none,
        workspaces_name: Seq::empty(),
        exclude: Seq::empty(),
        format: default_format(),
    }
}

impl Default for ConfigFile {
    fn default() -> (r: ConfigFile)
        ensures
            r@ == default_settings(),
    {
        let mut class: Vec<(String, String)> = Vec::new();
        class.push((owned("DEFAULT"), owned("\u{f059} {class}")));
        let r = ConfigFile {
            class,
            class_active: Vec::new(),
            initial_class: Vec::new(),
            initial_class_active: Vec::new(),
            workspaces_name: Vec::new(),
            title_in_class: Vec::new(),
            title_in_class_active: Vec::new(),
            title_in_initial_class: Vec::new(),
            title_in_initial_class_active: Vec::new(),
            initial_title_in_class: Vec::new(),
            initial_title_in_class_active: Vec::new(),
            initial_title_in_initial_class: Vec::new(),
            initial_title_in_initial_class_active: Vec::new(),
            exclude: Vec::new(),
            format: ConfigFormatRaw::default(),
        };
        assert(r@.inactive.class =~= default_settings().inactive.class);
        assert(r@.inactive.initial_class =~= Seq::empty());
        assert(r@.inactive.title_in_class =~= Seq::empty());
        assert(r@.inactive.title_in_initial_class =~= Seq::empty());
        assert(r@.inactive.initial_title_in_class =~= Seq::empty());
        assert(r@.inactive.initial_title_in_initial_class =~= Seq::empty());
        assert(r@.active.class =~= Seq::empty());
        assert(r@.active.initial_class =~= Seq::empty());
        assert(r@.active.title_in_class =~= Seq::empty());
        assert(r@.active.title_in_initial_class =~= Seq::empty());
        assert(r@.active.initial_title_in_class =~= Seq::empty());
        assert(r@.active.initial_title_in_initial_class =~= Seq::empty());
        assert(r@.workspaces_name =~= Seq::empty());
        assert(r@.exclude =~= Seq::empty());
        r
    }
}

impl Clone for ConfigFile {
    fn clone(&self) -> (r: ConfigFile)
        ensures
            r@ == self@,
    {
        ConfigFile {
            class: clone_rules(&self.class),
            class_active: clone_rules(&self.class_active),
            initial_class: clone_rules(&self.initial_class),
            initial_class_active: clone_rules(&self.initial_class_active),
            workspaces_name: clone_rules(&self.workspaces_name),
            title_in_class: clone_nested_rules(&self.title_in_class),
            title_in_class_active: clone_nested_rules(&self.title_in_class_active),
            title_in_initial_class: clone_nested_rules(&self.title_in_initial_class),
            title_in_initial_class_active: clone_nested_rules(&self.title_in_initial_class_active),
            initial_title_in_class: clone_nested_rules(&self.initial_title_in_class),
            initial_title_in_class_active: clone_nested_rules(&self.initial_title_in_class_active),
            initial_title_in_initial_class: clone_nested_rules(
                &self.initial_title_in_initial_class,
            ),
            initial_title_in_initial_class_active: clone_nested_rules(
                &self.initial_title_in_initial_class_active,
            ),
            exclude: clone_rules(&self.exclude),
            format: self.format.clone(),
        }
    }
}

/// A configuration and the place it was read from.
#[derive(Debug, PartialEq, Eq)]
pub struct Config {
    pub cfg_path: Option<String>,
    pub config: ConfigFile,
}

/// The switches given on the command line.
#[derive(Debug, PartialEq, Eq)]
pub struct Args {
    pub verbose: bool,
    pub debug: bool,
    pub config: Option<String>,
    pub dump: bool,
    pub migrate_config: bool,
}

} // verus!
