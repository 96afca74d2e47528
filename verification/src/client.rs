//! Windows: what the window manager reports of one, and what a label is
//! made from.

use crate::icon::{IconStatus, Resolved};
use vstd::prelude::*;
use vstd::std_specs::cmp::PartialEqSpecImpl;

verus! {

/// How far a window fills its screen.
#[derive(Clone, Copy, Debug, PartialEq, Eq, Structural)]
pub enum FullscreenMode {
    /// Not fullscreen at all.
    Normal,
    Maximized,
    Fullscreen,
    MaximizedFullscreen,
}

/// One window as the window manager reports it.
#[derive(Debug, PartialEq, Eq)]
pub struct ClientRecord {
    pub address: String,
    pub at: (i16, i16),
    pub workspace_id: i32,
    pub workspace_name: String,
    pub fullscreen: FullscreenMode,
    pub initial_class: String,
    pub class: String,
    pub initial_title: String,
    pub title: String,
    pub pid: i32,
}

/// A reported window as a mathematical value.
pub struct Record {
    pub address: Seq<char>,
    pub at: (i16, i16),
    pub workspace_id: i32,
    pub workspace_name: Seq<char>,
    pub fullscreen: FullscreenMode,
    pub initial_class: Seq<char>,
    pub class: Seq<char>,
    pub initial_title: Seq<char>,
    pub title: Seq<char>,
    pub pid: i32,
}

impl View for ClientRecord {
    type V = Record;

    open spec fn view(&self) -> Record {
        Record {
            address: self.address@,
            at: self.at,
            workspace_id: self.workspace_id,
            workspace_name: self.workspace_name@,
            fullscreen: self.fullscreen,
            initial_class: self.initial_class@,
            class: self.class@,
            initial_title: self.initial_title@,
            title: self.title@,
            pid: self.pid,
        }
    }
}

impl DeepView for ClientRecord {
    type V = Record;

    open spec fn deep_view(&self) -> Record {
        self@
    }
}

impl Clone for ClientRecord {
    fn clone(&self) -> (r: ClientRecord)
        ensures
            r@ == self@,
    {
        ClientRecord {
            address: self.address.clone(),
            at: self.at,
            workspace_id: self.workspace_id,
            workspace_name: self.workspace_name.clone(),
            fullscreen: self.fullscreen,
            initial_class: self.initial_class.clone(),
            class: self.class.clone(),
            initial_title: self.initial_title.clone(),
            title: self.title.clone(),
            pid: self.pid,
        }
    }
}

/// A window with its resolved icon.
#[derive(Debug, Eq)]
pub struct AppClient {
    pub class: String,
    pub title: String,
    pub initial_class: String,
    pub initial_title: String,
    pub is_active: bool,
    pub is_fullscreen: FullscreenMode,
    pub is_dedup_inactive_fullscreen: bool,
    pub matched_rule: IconStatus,
}

/// A window with its icon as a mathematical value.
pub struct Client {
    pub class: Seq<char>,
    pub title: Seq<char>,
    pub initial_class: Seq<char>,
    pub initial_title: Seq<char>,
    pub is_active: bool,
    pub is_fullscreen: FullscreenMode,
    pub is_dedup_inactive_fullscreen: bool,
    pub matched_rule: Resolved,
}

impl View for AppClient {
    type V = Client;

    open spec fn view(&self) -> Client {
        Client {
            class: self.class@,
            title: self.title@,
            initial_class: self.initial_class@,
            initial_title: self.initial_title@,
            is_active: self.is_active,
            is_fullscreen: self.is_fullscreen,
            is_dedup_inactive_fullscreen: self.is_dedup_inactive_fullscreen,
            matched_rule: self.matched_rule@,
        }
    }
}

impl DeepView for AppClient {
    type V = Client;

    open spec fn deep_view(&self) -> Client {
        self@
    }
}

/// Whether `b` may be counted with `a` when icons are deduplicated: both
/// have the same resolved icon and the same focus, and the same fullscreen
/// mode unless `a` was told to disregard it.
pub open spec fn equivalent(a: Client, b: Client) -> bool {
    a.matched_rule == b.matched_rule && a.is_active == b.is_active && (
    a.is_dedup_inactive_fullscreen || a.is_fullscreen == b.is_fullscreen)
}

/// Among windows that carry the same switch, as all windows of one cycle
/// do, being counted together is an equivalence: every window with
/// itself, either of two with the other, and the first of three with the
/// third where it is with the second and the second with the third.
pub proof fn equivalent_under_one_switch(a: Client, b: Client, c: Client)
    requires
        a.is_dedup_inactive_fullscreen == b.is_dedup_inactive_fullscreen,
        b.is_dedup_inactive_fullscreen == c.is_dedup_inactive_fullscreen,
    ensures
        equivalent(a, a),
        equivalent(a, b) ==> equivalent(b, a),
        equivalent(a, b) && equivalent(b, c) ==> equivalent(a, c),
{
}

impl PartialEq for AppClient {
    fn eq(&self, other: &Self) -> (r: bool) {
        self.matched_rule.same(&other.matched_rule) && self.is_active == other.is_active && (
        self.is_dedup_inactive_fullscreen || self.is_fullscreen == other.is_fullscreen)
    }
}

impl PartialEqSpecImpl for AppClient {
    open spec fn obeys_eq_spec() -> bool {
        true
    }

    open spec fn eq_spec(&self, other: &Self) -> bool {
        equivalent(self@, other@)
    }
}

impl Clone for AppClient {
    fn clone(&self) -> (r: AppClient)
        ensures
            r@ == self@,
    {
        AppClient {
            class: self.class.clone(),
            title: self.title.clone(),
            initial_class: self.initial_class.clone(),
            initial_title: self.initial_title.clone(),
            is_active: self.is_active,
            is_fullscreen: self.is_fullscreen,
            is_dedup_inactive_fullscreen: self.is_dedup_inactive_fullscreen,
            matched_rule: self.matched_rule.clone(),
        }
    }
}

impl AppClient {
    /// The window `client` with its focus, the switch of the deduplication
    /// and its resolved icon.
    pub fn new(
        client: ClientRecord,
        is_active: bool,
        is_dedup_inactive_fullscreen: bool,
        matched_rule: IconStatus,
    ) -> (r: AppClient)
        ensures
            r@ == (Client {
                class: client@.class,
                title: client@.title,
                initial_class: client@.initial_class,
                initial_title: client@.initial_title,
                is_active,
                is_fullscreen: client@.fullscreen,
                is_dedup_inactive_fullscreen,
                matched_rule: matched_rule@,
            }),
    {
        AppClient {
            initial_class: client.initial_class,
            class: client.class,
            initial_title: client.initial_title,
            title: client.title,
            is_active,
            is_fullscreen: client.fullscreen,
            is_dedup_inactive_fullscreen,
            matched_rule,
        }
    }
}

} // verus!
