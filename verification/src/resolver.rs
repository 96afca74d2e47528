//! Icon resolution. The tiers are tried in a fixed order, and inside a
//! tier the first rule that matches decides. Patterns are matched by the
//! `regex` crate, so every statement here is made over what it answers.

use crate::config::{ConfigFile, NestedRules, RuleSet, Rules, Settings};
use crate::icon::{Icon, IconConfig, IconStatus, Resolved, Tier};
use crate::pattern::{captures, is_match, regex_captures, regex_is_match};
use crate::renamer::Renamer;
use crate::text::{push_all, to_chars, to_string};
use vstd::prelude::*;

verus! {

/// The place of the first rule at or after `from` whose pattern matches
/// `text`.
pub open spec fn first_match(rules: Rules, text: Seq<char>, from: int) -> Option<int>
    decreases rules.len() - from,
{
    if from < 0 || from >= rules.len() {
        None
    } else if regex_is_match(rules[from].0, text) {
        Some(from)
    } else {
        first_match(rules, text, from + 1)
    }
}

/// The place of the first entry at or after `from` whose class pattern
/// matches `class`.
pub open spec fn first_class_match(rules: NestedRules, class: Seq<char>, from: int) -> Option<int>
    decreases rules.len() - from,
{
    if from < 0 || from >= rules.len() {
        None
    } else if regex_is_match(rules[from].0, class) {
        Some(from)
    } else {
        first_class_match(rules, class, from + 1)
    }
}

/// The place of the first rule at or after `from` whose pattern finds a
/// match in `title`.
pub open spec fn first_capture(rules: Rules, title: Seq<char>, from: int) -> Option<int>
    decreases rules.len() - from,
{
    if from < 0 || from >= rules.len() {
        None
    } else if regex_captures(rules[from].0, title) is Some {
        Some(from)
    } else {
        first_capture(rules, title, from + 1)
    }
}

/// The captured texts: a group that took no part gives the empty text.
pub open spec fn captured_texts(groups: Seq<Option<Seq<char>>>) -> Seq<Seq<char>> {
    Seq::new(
        groups.len(),
        |i: int|
            match groups[i] {
                Some(text) => text,
                None => Seq::<char>::empty(),
            },
    )
}

/// What a tier of plain rules makes of `class`: the icon of the first rule
/// that matches.
pub open spec fn class_icon(rules: Rules, class: Seq<char>, tier: Tier) -> Option<Icon> {
    match first_match(rules, class, 0) {
        Some(i) => Some(Icon { tier, rule: rules[i].0, icon: rules[i].1, captures: None }),
        None => None,
    }
}

/// What the title rules `rules` make of `title`: the icon of the first
/// rule that matches, with what it captured.
pub open spec fn inner_icon(rules: Rules, title: Seq<char>, tier: Tier) -> Option<Icon> {
    match first_capture(rules, title, 0) {
        Some(j) => Some(
            Icon {
                tier,
                rule: rules[j].0,
                icon: rules[j].1,
                captures: Some(captured_texts(regex_captures(rules[j].0, title)->0)),
            },
        ),
        None => None,
    }
}

/// What a tier of nested rules makes of `class` and `title`: the first
/// entry whose class pattern matches decides alone, by the first of its
/// title rules that matches. Where none of them does, the tier gives
/// nothing, whatever the later entries hold.
pub open spec fn title_icon(rules: NestedRules, class: Seq<char>, title: Seq<char>, tier: Tier)
    -> Option<Icon> {
    match first_class_match(rules, class, 0) {
        Some(i) => inner_icon(rules[i].1, title, tier),
        None => None,
    }
}

/// The first of two results that is one.
pub open spec fn or_else<T>(first: Option<T>, second: Option<T>) -> Option<T> {
    if first is Some {
        first
    } else {
        second
    }
}

/// The first of the answers of six tiers that is one.
pub open spec fn first_answer<T>(
    first: Option<T>,
    second: Option<T>,
    third: Option<T>,
    fourth: Option<T>,
    fifth: Option<T>,
    sixth: Option<T>,
) -> Option<T> {
    or_else(first, or_else(second, or_else(third, or_else(fourth, or_else(fifth, sixth)))))
}

/// What one set of rules makes of a window. The tiers are tried in this
/// order: initial title in initial class, initial title in class, title in
/// initial class, title in class, initial class, class.
pub open spec fn found_icon(
    rules: RuleSet,
    initial_class: Seq<char>,
    class: Seq<char>,
    initial_title: Seq<char>,
    title: Seq<char>,
) -> Option<Icon> {
    first_answer(
        title_icon(
            rules.initial_title_in_initial_class,
            initial_class,
            initial_title,
            Tier::InitialTitleInInitialClass,
        ),
        title_icon(rules.initial_title_in_class, class, initial_title, Tier::InitialTitleInClass),
        title_icon(rules.title_in_initial_class, initial_class, title, Tier::TitleInInitialClass),
        title_icon(rules.title_in_class, class, title, Tier::TitleInClass),
        class_icon(rules.initial_class, initial_class, Tier::InitialClass),
        class_icon(rules.class, class, Tier::Class),
    )
}

/// What the rules of one view make of a window, marked with that view.
pub open spec fn found(
    settings: Settings,
    initial_class: Seq<char>,
    class: Seq<char>,
    initial_title: Seq<char>,
    title: Seq<char>,
    is_active: bool,
) -> Option<Resolved> {
    match found_icon(settings.rules(is_active), initial_class, class, initial_title, title) {
        Some(icon) => Some(Resolved { active: is_active, icon }),
        None => None,
    }
}

/// The glyph that stands for a window without any rule.
pub open spec fn fallback_glyph() -> Seq<char> {
    "\u{f059} "@
}

/// The icon of a window that no rule matches and for which no default is
/// configured: a glyph and the class as it is.
pub open spec fn fallback_icon(class: Seq<char>) -> Resolved {
    Resolved {
        active: false,
        icon: Icon {
            tier: Tier::Default,
            rule: "DEFAULT"@,
            icon: fallback_glyph() + class,
            captures: None,
        },
    }
}

/// The icon of a window, chosen among what the rules gave.
///
/// For the focused window its own rules are asked first, their default
/// included: what they found; else what a rule on a title of the others
/// found, since every rule on a title goes before every rule on a class;
/// else the default of its own rules; else what a rule on a class of the
/// others found; else the default of the others. For any other window:
/// what the rules found, else their default. And at last the fallback.
pub open spec fn picked(
    is_active: bool,
    icon_active: Option<Resolved>,
    icon: Option<Resolved>,
    default_active: Option<Resolved>,
    default_inactive: Option<Resolved>,
    class: Seq<char>,
) -> Resolved {
    let last = match default_inactive {
        Some(found) => found,
        None => fallback_icon(class),
    };
    let rest = match icon {
        Some(found) => found,
        None => last,
    };
    if is_active {
        match icon_active {
            Some(found) => found,
            None => if icon is Some && icon->0.icon.tier.reads_title() {
                icon->0
            } else {
                match default_active {
                    Some(found) => found,
                    None => rest,
                }
            },
        }
    } else {
        rest
    }
}

/// The icon of a window under `settings`. A default is what the rules make
/// of a window whose classes are `DEFAULT` and whose titles are empty.
pub open spec fn resolved_icon(
    settings: Settings,
    initial_class: Seq<char>,
    class: Seq<char>,
    initial_title: Seq<char>,
    title: Seq<char>,
    is_active: bool,
) -> Resolved {
    picked(
        is_active,
        found(settings, initial_class, class, initial_title, title, true),
        found(settings, initial_class, class, initial_title, title, false),
        found(settings, "DEFAULT"@, "DEFAULT"@, Seq::empty(), Seq::empty(), true),
        found(settings, "DEFAULT"@, "DEFAULT"@, Seq::empty(), Seq::empty(), false),
        class,
    )
}

/// Inside a tier the first rule that matches decides: the place found is
/// that of a rule that matches, no rule before it matches, and where no
/// place is found no rule matches.
pub proof fn first_match_is_first(rules: Rules, text: Seq<char>, from: int)
    requires
        0 <= from,
    ensures
        match first_match(rules, text, from) {
            Some(i) => from <= i < rules.len() && regex_is_match(rules[i].0, text) && forall|j: int|
                from <= j < i ==> !regex_is_match(rules[j].0, text),
            None => forall|j: int| from <= j < rules.len() ==> !regex_is_match(rules[j].0, text),
        },
    decreases rules.len() - from,
{
    if from < rules.len() && !regex_is_match(rules[from].0, text) {
        first_match_is_first(rules, text, from + 1);
    }
}

/// Among the title rules of an entry the first one that finds a match
/// decides.
pub proof fn first_capture_is_first(rules: Rules, title: Seq<char>, from: int)
    requires
        0 <= from,
    ensures
        match first_capture(rules, title, from) {
            Some(j) => from <= j < rules.len() && regex_captures(rules[j].0, title) is Some
                && forall|k: int| from <= k < j ==> regex_captures(rules[k].0, title) is None,
            None => forall|k: int|
                from <= k < rules.len() ==> regex_captures(rules[k].0, title) is None,
        },
    decreases rules.len() - from,
{
    if from < rules.len() && regex_captures(rules[from].0, title) is None {
        first_capture_is_first(rules, title, from + 1);
    }
}

/// In a tier of nested rules the first entry whose class pattern matches
/// decides alone: where none of its title rules finds a match the tier
/// gives nothing, and where no entry matches the class it gives nothing
/// either.
pub proof fn first_class_entry_decides(
    rules: NestedRules,
    class: Seq<char>,
    title: Seq<char>,
    tier: Tier,
    i: int,
)
    requires
        0 <= i < rules.len(),
        regex_is_match(rules[i].0, class),
        forall|k: int| 0 <= k < i ==> !regex_is_match(rules[k].0, class),
    ensures
        title_icon(rules, class, title, tier) == inner_icon(rules[i].1, title, tier),
        (forall|j: int| 0 <= j < rules[i].1.len() ==> regex_captures(rules[i].1[j].0, title) is None)
            ==> title_icon(rules, class, title, tier) is None,
{
    first_class_match_found(rules, class, 0, i);
    first_capture_is_first(rules[i].1, title, 0);
}

proof fn first_class_match_found(rules: NestedRules, class: Seq<char>, from: int, i: int)
    requires
        0 <= from <= i < rules.len(),
        regex_is_match(rules[i].0, class),
        forall|k: int| from <= k < i ==> !regex_is_match(rules[k].0, class),
    ensures
        first_class_match(rules, class, from) == Some(i),
    decreases i - from,
{
    if from < i {
        first_class_match_found(rules, class, from + 1, i);
    }
}

/// The order for a focused window for which its own rules find nothing.
/// The default of its own rules goes before what a rule on a class of the
/// others found, and behind what a rule on a title of the others found.
/// Without a default of its own the window has what the others found,
/// marked as theirs, then their default, then the fallback.
pub proof fn focused_window_order(
    icon: Resolved,
    own_default: Resolved,
    default_active: Option<Resolved>,
    default_inactive: Option<Resolved>,
    class: Seq<char>,
)
    ensures
        !icon.icon.tier.reads_title() ==> picked(
            true,
            None,
            Some(icon),
            Some(own_default),
            default_inactive,
            class,
        ) == own_default,
        icon.icon.tier.reads_title() ==> picked(
            true,
            None,
            Some(icon),
            default_active,
            default_inactive,
            class,
        ) == icon,
        picked(true, None, Some(icon), None, default_inactive, class) == icon,
        picked(true, None, None, Some(own_default), default_inactive, class) == own_default,
        default_inactive is Some ==> picked(true, None, None, None, default_inactive, class)
            == default_inactive->0,
        picked(true, None, None, None, None, class) == fallback_icon(class),
{
}

/// A window that is not focused never asks the rules for the focused
/// window: it has what its rules found, else their default, else the
/// fallback.
pub proof fn unfocused_window_order(
    icon_active: Option<Resolved>,
    icon: Option<Resolved>,
    default_active: Option<Resolved>,
    default_inactive: Option<Resolved>,
    class: Seq<char>,
)
    ensures
        icon is Some ==> picked(false, icon_active, icon, default_active, default_inactive, class)
            == icon->0,
        icon is None && default_inactive is Some ==> picked(
            false,
            icon_active,
            icon,
            default_active,
            default_inactive,
            class,
        ) == default_inactive->0,
        icon is None && default_inactive is None ==> picked(
            false,
            icon_active,
            icon,
            default_active,
            default_inactive,
            class,
        ) == fallback_icon(class),
{
}

/// The tiers are a ladder: the result of a set of rules is the result of
/// the first tier, in their order, that gives one, and nothing where none
/// gives one. So a rule on the title in the initial class goes before
/// every rule on the title in the class, and every rule on an initial title
/// before both.
pub proof fn tiers_in_order(
    rules: RuleSet,
    initial_class: Seq<char>,
    class: Seq<char>,
    initial_title: Seq<char>,
    title: Seq<char>,
)
    ensures
        ({
            let first = title_icon(
                rules.initial_title_in_initial_class,
                initial_class,
                initial_title,
                Tier::InitialTitleInInitialClass,
            );
            let second = title_icon(
                rules.initial_title_in_class,
                class,
                initial_title,
                Tier::InitialTitleInClass,
            );
            let third = title_icon(
                rules.title_in_initial_class,
                initial_class,
                title,
                Tier::TitleInInitialClass,
            );
            let fourth = title_icon(rules.title_in_class, class, title, Tier::TitleInClass);
            let fifth = class_icon(rules.initial_class, initial_class, Tier::InitialClass);
            let sixth = class_icon(rules.class, class, Tier::Class);
            let result = found_icon(rules, initial_class, class, initial_title, title);
            &&& first is Some ==> result == first
            &&& first is None && second is Some ==> result == second
            &&& first is None && second is None && third is Some ==> result == third
            &&& first is None && second is None && third is None && fourth is Some ==> result
                == fourth
            &&& first is None && second is None && third is None && fourth is None && fifth is Some
                ==> result == fifth
            &&& first is None && second is None && third is None && fourth is None && fifth is None
                ==> result == sixth
        }),
{
}

/// Resolution is a function of the four attributes, the focus and the
/// rules: two results for the same of each are the same.
pub proof fn resolution_is_a_function(
    first: IconStatus,
    second: IconStatus,
    settings: Settings,
    other_settings: Settings,
    initial_class: Seq<char>,
    class: Seq<char>,
    initial_title: Seq<char>,
    title: Seq<char>,
    is_active: bool,
)
    requires
        settings.inactive == other_settings.inactive,
        settings.active == other_settings.active,
        first@ == resolved_icon(settings, initial_class, class, initial_title, title, is_active),
        second@ == resolved_icon(
            other_settings,
            initial_class,
            class,
            initial_title,
            title,
            is_active,
        ),
    ensures
        first@ == second@,
{
}

/// Resolution always gives an icon, and the icon of a window that is not
/// focused never comes from the rules for the focused window.
pub proof fn unfocused_icon_is_inactive(
    settings: Settings,
    initial_class: Seq<char>,
    class: Seq<char>,
    initial_title: Seq<char>,
    title: Seq<char>,
)
    ensures
        !resolved_icon(settings, initial_class, class, initial_title, title, false).active,
{
}

/// The texts of the groups that `groups` holds.
pub fn capture_texts(groups: Vec<Option<String>>) -> (r: Vec<String>)
    ensures
        r.deep_view() == captured_texts(groups.deep_view()),
{
    let mut r: Vec<String> = Vec::new();
    let mut i: usize = 0;
    while i < groups.len()
        invariant
            i <= groups.len(),
            r.len() == i,
            forall|j: int| 0 <= j < i ==> r@[j]@ == captured_texts(groups.deep_view())[j],
        decreases groups.len() - i,
    {
        let text = match &groups[i] {
            Some(text) => text.clone(),
            None => String::new(),
        };
        r.push(text);
        i += 1;
    }
    assert(r.deep_view() =~= captured_texts(groups.deep_view()));
    r
}

/// Tries the plain rules `list` on `class`, in order.
fn find_class_icon(list: &Vec<(String, String)>, class: &str, tier: Tier) -> (r: Option<
    IconConfig,
>)
    requires
        !tier.reads_title(),
        tier != Tier::Default,
    ensures
        r.deep_view() == class_icon(list.deep_view(), class@, tier),
{
    let mut i: usize = 0;
    while i < list.len()
        invariant
            i <= list.len(),
            !tier.reads_title(),
            tier != Tier::Default,
            first_match(list.deep_view(), class@, 0) == first_match(list.deep_view(), class@, i as int),
        decreases list.len() - i,
    {
        if is_match(list[i].0.as_str(), class) {
            return Some(IconConfig::forge(tier, list[i].0.clone(), list[i].1.clone(), None));
        }
        i += 1;
    }
    None
}

/// Tries the title rules `list` on `title`, in order.
fn find_inner_icon(list: &Vec<(String, String)>, title: &str, tier: Tier) -> (r: Option<
    IconConfig,
>)
    requires
        tier.reads_title(),
    ensures
        r.deep_view() == inner_icon(list.deep_view(), title@, tier),
{
    let mut j: usize = 0;
    while j < list.len()
        invariant
            j <= list.len(),
            tier.reads_title(),
            first_capture(list.deep_view(), title@, 0) == first_capture(
                list.deep_view(),
                title@,
                j as int,
            ),
        decreases list.len() - j,
    {
        match captures(list[j].0.as_str(), title) {
            Some(groups) => {
                let texts = capture_texts(groups);
                return Some(
                    IconConfig::forge(tier, list[j].0.clone(), list[j].1.clone(), Some(texts)),
                );
            },
            None => {},
        }
        j += 1;
    }
    None
}

/// Tries the nested rules `list` on `class` and `title`.
fn find_title_icon(
    list: &Vec<(String, Vec<(String, String)>)>,
    class: &str,
    title: &str,
    tier: Tier,
) -> (r: Option<IconConfig>)
    requires
        tier.reads_title(),
    ensures
        r.deep_view() == title_icon(list.deep_view(), class@, title@, tier),
{
    let mut i: usize = 0;
    while i < list.len()
        invariant
            i <= list.len(),
            tier.reads_title(),
            first_class_match(list.deep_view(), class@, 0) == first_class_match(
                list.deep_view(),
                class@,
                i as int,
            ),
        decreases list.len() - i,
    {
        if is_match(list[i].0.as_str(), class) {
            return find_inner_icon(&list[i].1, title, tier);
        }
        i += 1;
    }
    None
}

/// Marks an icon with the view of the rules that gave it.
pub fn forge_icon_status(is_active: bool, icon: Option<IconConfig>) -> (r: Option<IconStatus>)
    ensures
        r.deep_view() == match icon.deep_view() {
            Some(found) => Some(Resolved { active: is_active, icon: found }),
            None => None,
        },
{
    match icon {
        Some(found) => if is_active {
            Some(IconStatus::Active(found))
        } else {
            Some(IconStatus::Inactive(found))
        },
        None => None,
    }
}

/// Chooses among the answers of the six tiers, in their order: the first
/// that is one.
pub fn first_of_tiers(
    first: Option<IconConfig>,
    second: Option<IconConfig>,
    third: Option<IconConfig>,
    fourth: Option<IconConfig>,
    fifth: Option<IconConfig>,
    sixth: Option<IconConfig>,
) -> (r: Option<IconConfig>)
    ensures
        r.deep_view() == first_answer(
            first.deep_view(),
            second.deep_view(),
            third.deep_view(),
            fourth.deep_view(),
            fifth.deep_view(),
            sixth.deep_view(),
        ),
{
    if first.is_some() {
        first
    } else if second.is_some() {
        second
    } else if third.is_some() {
        third
    } else if fourth.is_some() {
        fourth
    } else if fifth.is_some() {
        fifth
    } else {
        sixth
    }
}

/// Chooses the icon of a window among what the rules gave.
pub fn pick_icon(
    is_active: bool,
    icon_active: Option<IconStatus>,
    icon: Option<IconStatus>,
    default_active: Option<IconStatus>,
    default_inactive: Option<IconStatus>,
    class: &str,
) -> (r: IconStatus)
    ensures
        r@ == picked(
            is_active,
            icon_active.deep_view(),
            icon.deep_view(),
            default_active.deep_view(),
            default_inactive.deep_view(),
            class@,
        ),
{
    if is_active {
        if let Some(found) = icon_active {
            return found;
        }
        let title_first = match &icon {
            Some(found) => found.tier().is_title_tier(),
            None => false,
        };
        if !title_first {
            if let Some(found) = default_active {
                return found;
            }
        }
    }
    if let Some(found) = icon {
        return found;
    }
    if let Some(found) = default_inactive {
        return found;
    }
    let mut text = to_chars("\u{f059} ");
    let name = to_chars(class);
    push_all(&mut text, &name);
    IconStatus::Inactive(IconConfig::Default(to_string(&text)))
}

impl Renamer {
    /// What the rules of one view make of a window, if any of them
    /// matches.
    pub fn find_icon(
        &self,
        initial_class: &str,
        class: &str,
        initial_title: &str,
        title: &str,
        is_active: bool,
        config: &ConfigFile,
    ) -> (r: Option<IconStatus>)
        ensures
            r.deep_view() == found(
                config@,
                initial_class@,
                class@,
                initial_title@,
                title@,
                is_active,
            ),
    {
        let (
            list_initial_title_in_initial_class,
            list_initial_title_in_class,
            list_title_in_initial_class,
            list_title_in_class,
            list_initial_class,
            list_class,
        ) = if is_active {
            (
                &config.initial_title_in_initial_class_active,
                &config.initial_title_in_class_active,
                &config.title_in_initial_class_active,
                &config.title_in_class_active,
                &config.initial_class_active,
                &config.class_active,
            )
        } else {
            (
                &config.initial_title_in_initial_class,
                &config.initial_title_in_class,
                &config.title_in_initial_class,
                &config.title_in_class,
                &config.initial_class,
                &config.class,
            )
        };
        let icon = first_of_tiers(
            find_title_icon(
                list_initial_title_in_initial_class,
                initial_class,
                initial_title,
                Tier::InitialTitleInInitialClass,
            ),
            find_title_icon(
                list_initial_title_in_class,
                class,
                initial_title,
                Tier::InitialTitleInClass,
            ),
            find_title_icon(
                list_title_in_initial_class,
                initial_class,
                title,
                Tier::TitleInInitialClass,
            ),
            find_title_icon(list_title_in_class, class, title, Tier::TitleInClass),
            find_class_icon(list_initial_class, initial_class, Tier::InitialClass),
            find_class_icon(list_class, class, Tier::Class),
        );
        forge_icon_status(is_active, icon)
    }

    /// The icon of a window under `config`.
    pub fn parse_icon(
        &self,
        initial_class: String,
        class: String,
        initial_title: String,
        title: String,
        is_active: bool,
        config: &ConfigFile,
    ) -> (r: IconStatus)
        ensures
            r@ == resolved_icon(
                config@,
                initial_class@,
                class@,
                initial_title@,
                title@,
                is_active,
            ),
    {
        let icon = self.find_icon(
            initial_class.as_str(),
            class.as_str(),
            initial_title.as_str(),
            title.as_str(),
            false,
            config,
        );
        let icon_active = self.find_icon(
            initial_class.as_str(),
            class.as_str(),
            initial_title.as_str(),
            title.as_str(),
            true,
            config,
        );
        let empty = String::new();
        let icon_default = self.find_icon(
            "DEFAULT",
            "DEFAULT",
            empty.as_str(),
            empty.as_str(),
            false,
            config,
        );
        let icon_default_active = self.find_icon(
            "DEFAULT",
            "DEFAULT",
            empty.as_str(),
            empty.as_str(),
            true,
            config,
        );
        pick_icon(is_active, icon_active, icon, icon_default_active, icon_default, class.as_str())
    }
}

} // verus!
