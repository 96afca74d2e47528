//! Icons: what the rules make of one window. An icon records the tier of
//! the rule that gave it, the rule's pattern, the icon text and, for a rule
//! on a title, what the pattern's groups captured.

use crate::text::{clone_texts, same_texts, to_chars, to_string};
use vstd::prelude::*;

verus! {

/// The texts that the groups of a title pattern captured, the whole match
/// first; a group that took no part gives the empty text.
pub type Captures = Option<Vec<String>>;

/// The kinds of rule, by the attributes of a window that they read.
#[derive(Clone, Copy, Debug, PartialEq, Eq, Structural)]
pub enum Tier {
    Class,
    InitialClass,
    TitleInClass,
    TitleInInitialClass,
    InitialTitleInClass,
    InitialTitleInInitialClass,
    Default,
}

impl Tier {
    /// Whether rules of this tier read a title, and so may capture.
    pub open spec fn reads_title(self) -> bool {
        self == Tier::TitleInClass || self == Tier::TitleInInitialClass || self
            == Tier::InitialTitleInClass || self == Tier::InitialTitleInInitialClass
    }

    /// Whether rules of this tier read a title.
    pub fn is_title_tier(self) -> (r: bool)
        ensures
            r == self.reads_title(),
    {
        match self {
            Tier::TitleInClass => true,
            Tier::TitleInInitialClass => true,
            Tier::InitialTitleInClass => true,
            Tier::InitialTitleInInitialClass => true,
            _ => false,
        }
    }
}

/// The rule that matched a window, and the icon it gives.
#[derive(Debug, PartialEq, Eq)]
pub enum IconConfig {
    Class(String, String),
    InitialClass(String, String),
    TitleInClass(String, String, Captures),
    TitleInInitialClass(String, String, Captures),
    InitialTitleInClass(String, String, Captures),
    InitialTitleInInitialClass(String, String, Captures),
    Default(String),
}

/// An icon as a mathematical value.
pub struct Icon {
    pub tier: Tier,
    pub rule: Seq<char>,
    pub icon: Seq<char>,
    pub captures: Option<Seq<Seq<char>>>,
}

impl View for IconConfig {
    type V = Icon;

    open spec fn view(&self) -> Icon {
        match self {
            IconConfig::Class(rule, icon) => Icon {
                tier: Tier::Class,
                rule: rule@,
                icon: icon@,
                captures: None,
            },
            IconConfig::InitialClass(rule, icon) => Icon {
                tier: Tier::InitialClass,
                rule: rule@,
                icon: icon@,
                captures: None,
            },
            IconConfig::TitleInClass(rule, icon, captures) => Icon {
                tier: Tier::TitleInClass,
                rule: rule@,
                icon: icon@,
                captures: captures.deep_view(),
            },
            IconConfig::TitleInInitialClass(rule, icon, captures) => Icon {
                tier: Tier::TitleInInitialClass,
                rule: rule@,
                icon: icon@,
                captures: captures.deep_view(),
            },
            IconConfig::InitialTitleInClass(rule, icon, captures) => Icon {
                tier: Tier::InitialTitleInClass,
                rule: rule@,
                icon: icon@,
                captures: captures.deep_view(),
            },
            IconConfig::InitialTitleInInitialClass(rule, icon, captures) => Icon {
                tier: Tier::InitialTitleInInitialClass,
                rule: rule@,
                icon: icon@,
                captures: captures.deep_view(),
            },
            IconConfig::Default(icon) => Icon {
                tier: Tier::Default,
                rule: "DEFAULT"@,
                icon: icon@,
                captures: None,
            },
        }
    }
}

impl DeepView for IconConfig {
    type V = Icon;

    open spec fn deep_view(&self) -> Icon {
        self@
    }
}

/// A copy of what was captured.
pub fn clone_captures(captures: &Captures) -> (r: Captures)
    ensures
        r.deep_view() == captures.deep_view(),
{
    match captures {
        Some(texts) => {
            let copy = clone_texts(texts);
            assert(copy.deep_view() =~= texts.deep_view());
            Some(copy)
        },
        None => None,
    }
}

/// Whether the same texts were captured.
pub fn same_captures(a: &Captures, b: &Captures) -> (r: bool)
    ensures
        r == (a.deep_view() == b.deep_view()),
{
    match (a, b) {
        (Some(x), Some(y)) => same_texts(x, y),
        (None, None) => true,
        _ => false,
    }
}

impl IconConfig {
    /// The icon of a rule of tier `tier` with pattern `rule`. A tier that
    /// reads no title keeps no captures, and the default tier no pattern.
    pub fn forge(tier: Tier, rule: String, icon: String, captures: Captures) -> (r: IconConfig)
        ensures
            r@ == (Icon {
                tier,
                rule: if tier == Tier::Default {
                    "DEFAULT"@
                } else {
                    rule@
                },
                icon: icon@,
                captures: if tier.reads_title() {
                    captures.deep_view()
                } else {
                    None
                },
            }),
    {
        match tier {
            Tier::Class => IconConfig::Class(rule, icon),
            Tier::InitialClass => IconConfig::InitialClass(rule, icon),
            Tier::TitleInClass => IconConfig::TitleInClass(rule, icon, captures),
            Tier::TitleInInitialClass => IconConfig::TitleInInitialClass(rule, icon, captures),
            Tier::InitialTitleInClass => IconConfig::InitialTitleInClass(rule, icon, captures),
            Tier::InitialTitleInInitialClass => IconConfig::InitialTitleInInitialClass(
                rule,
                icon,
                captures,
            ),
            Tier::Default => IconConfig::Default(icon),
        }
    }

    /// The tier of the rule.
    pub fn tier(&self) -> (r: Tier)
        ensures
            r == self@.tier,
    {
        match self {
            IconConfig::Class(_, _) => Tier::Class,
            IconConfig::InitialClass(_, _) => Tier::InitialClass,
            IconConfig::TitleInClass(_, _, _) => Tier::TitleInClass,
            IconConfig::TitleInInitialClass(_, _, _) => Tier::TitleInInitialClass,
            IconConfig::InitialTitleInClass(_, _, _) => Tier::InitialTitleInClass,
            IconConfig::InitialTitleInInitialClass(_, _, _) => Tier::InitialTitleInInitialClass,
            IconConfig::Default(_) => Tier::Default,
        }
    }

    /// The pattern, the icon text and the captures.
    pub fn get(&self) -> (r: (String, String, Captures))
        ensures
            r.0@ == self@.rule,
            r.1@ == self@.icon,
            r.2.deep_view() == self@.captures,
    {
        match self {
            IconConfig::Default(icon) => {
                let rule = to_string(&to_chars("DEFAULT"));
                (rule, icon.clone(), None)
            },
            IconConfig::Class(rule, icon) | IconConfig::InitialClass(rule, icon) => (
                rule.clone(),
                icon.clone(),
                None,
            ),
            IconConfig::TitleInClass(rule, icon, captures)
            | IconConfig::TitleInInitialClass(rule, icon, captures)
            | IconConfig::InitialTitleInClass(rule, icon, captures)
            | IconConfig::InitialTitleInInitialClass(rule, icon, captures) => (
                rule.clone(),
                icon.clone(),
                clone_captures(captures),
            ),
        }
    }

    /// The icon text.
    pub fn icon(&self) -> (r: String)
        ensures
            r@ == self@.icon,
    {
        let (_, icon, _) = self.get();
        icon
    }

    /// The pattern of the rule.
    pub fn rule(&self) -> (r: String)
        ensures
            r@ == self@.rule,
    {
        let (rule, _, _) = self.get();
        rule
    }

    /// What the pattern captured.
    pub fn captures(&self) -> (r: Captures)
        ensures
            r.deep_view() == self@.captures,
    {
        let (_, _, captures) = self.get();
        captures
    }

    /// Whether two icons come from the same rule with the same captures.
    pub fn same(&self, other: &IconConfig) -> (r: bool)
        ensures
            r == (self@ == other@),
    {
        if self.tier() != other.tier() {
            return false;
        }
        let (rule, icon, captures) = self.get();
        let (other_rule, other_icon, other_captures) = other.get();
        rule == other_rule && icon == other_icon && same_captures(&captures, &other_captures)
    }
}

impl Clone for IconConfig {
    fn clone(&self) -> (r: IconConfig)
        ensures
            r@ == self@,
    {
        let (rule, icon, captures) = self.get();
        IconConfig::forge(self.tier(), rule, icon, captures)
    }
}

/// An icon, with the view of the rules that gave it: the rules for the
/// focused window, or the rules for the others.
#[derive(Debug, PartialEq, Eq)]
pub enum IconStatus {
    Active(IconConfig),
    Inactive(IconConfig),
}

/// A resolved icon as a mathematical value.
pub struct Resolved {
    pub active: bool,
    pub icon: Icon,
}

impl View for IconStatus {
    type V = Resolved;

    open spec fn view(&self) -> Resolved {
        match self {
            IconStatus::Active(config) => Resolved { active: true, icon: config@ },
            IconStatus::Inactive(config) => Resolved { active: false, icon: config@ },
        }
    }
}

impl DeepView for IconStatus {
    type V = Resolved;

    open spec fn deep_view(&self) -> Resolved {
        self@
    }
}

impl IconStatus {
    /// The icon text.
    pub fn icon(&self) -> (r: String)
        ensures
            r@ == self@.icon.icon,
    {
        match self {
            IconStatus::Active(config) | IconStatus::Inactive(config) => config.icon(),
        }
    }

    /// The pattern of the rule.
    pub fn rule(&self) -> (r: String)
        ensures
            r@ == self@.icon.rule,
    {
        match self {
            IconStatus::Active(config) | IconStatus::Inactive(config) => config.rule(),
        }
    }

    /// What the pattern captured.
    pub fn captures(&self) -> (r: Captures)
        ensures
            r.deep_view() == self@.icon.captures,
    {
        match self {
            IconStatus::Active(config) | IconStatus::Inactive(config) => config.captures(),
        }
    }

    /// The tier of the rule.
    pub fn tier(&self) -> (r: Tier)
        ensures
            r == self@.icon.tier,
    {
        match self {
            IconStatus::Active(config) | IconStatus::Inactive(config) => config.tier(),
        }
    }

    /// Whether the icon came from the rules for the focused window.
    pub fn is_active(&self) -> (r: bool)
        ensures
            r == self@.active,
    {
        match self {
            IconStatus::Active(_) => true,
            IconStatus::Inactive(_) => false,
        }
    }

    /// Whether two resolved icons are the same.
    pub fn same(&self, other: &IconStatus) -> (r: bool)
        ensures
            r == (self@ == other@),
    {
        match (self, other) {
            (IconStatus::Active(a), IconStatus::Active(b)) => a.same(b),
            (IconStatus::Inactive(a), IconStatus::Inactive(b)) => a.same(b),
            _ => false,
        }
    }
}

impl Clone for IconStatus {
    fn clone(&self) -> (r: IconStatus)
        ensures
            r@ == self@,
    {
        match self {
            IconStatus::Active(config) => IconStatus::Active(config.clone()),
            IconStatus::Inactive(config) => IconStatus::Inactive(config.clone()),
        }
    }
}

} // verus!
