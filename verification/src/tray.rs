use vstd::prelude::*;
use std::collections::HashMap;
use vstd::std_specs::iter::IteratorSpec;
use crate::text::str_equal;

verus! {

broadcast use vstd::std_specs::hash::group_hash_axioms;

/// Aggregate status shown by the tray icon.
#[derive(Debug, Clone, Copy, PartialEq, Eq, Structural)]
pub enum TrayStatus {
    /// No device, or some device whose first check has not completed.
    Neutral,
    /// Every device answered its last check.
    AllOnline,
    /// Every device has a status and at least one is offline.
    HasOffline,
}

/// The icon that stands for a tray status.
#[derive(Debug, Clone, Copy, PartialEq, Eq, Structural)]
pub enum TrayIcon {
    Default,
    Green,
    Red,
}

/// Aggregate of the last known status of every device (`None`: not checked
/// yet; `Some(true)`: online; `Some(false)`: offline).
pub open spec fn spec_tray_status(states: Map<i64, Option<bool>>) -> TrayStatus {
    if states.dom().is_empty() {
        TrayStatus::Neutral
    } else if states.values().contains(None) {
        TrayStatus::Neutral
    } else if states.values().contains(Some(false)) {
        TrayStatus::HasOffline
    } else {
        TrayStatus::AllOnline
    }
}

/// The tray status in terms of the individual device statuses: neutral when
/// no device is known or some device has not been checked yet; otherwise
/// red when some device is offline, and green exactly when every device is
/// online.
pub proof fn lemma_tray_status_meaning(states: Map<i64, Option<bool>>)
    ensures
        spec_tray_status(states) == TrayStatus::Neutral <==> (states.dom().is_empty() || exists|id: i64|
            states.contains_key(id) && #[trigger] states[id] == None::<bool>),
        spec_tray_status(states) == TrayStatus::HasOffline <==> (!states.dom().is_empty() && (forall|
            id: i64,
        | states.contains_key(id) ==> #[trigger] states[id] != None::<bool>) && exists|id: i64|
            states.contains_key(id) && #[trigger] states[id] == Some(false)),
        spec_tray_status(states) == TrayStatus::AllOnline <==> (!states.dom().is_empty() && forall|
            id: i64,
        | states.contains_key(id) ==> #[trigger] states[id] == Some(true)),
{
    if states.values().contains(None) {
        let id = choose|id: i64| states.contains_key(id) && states[id] == None::<bool>;
    }
    if states.values().contains(Some(false)) {
        let id = choose|id: i64| states.contains_key(id) && states[id] == Some(false);
    }
    if exists|id: i64| states.contains_key(id) && #[trigger] states[id] == None::<bool> {
        let id = choose|id: i64| states.contains_key(id) && #[trigger] states[id] == None::<bool>;
        assert(states.values().contains(None));
    }
    if exists|id: i64| states.contains_key(id) && #[trigger] states[id] == Some(false) {
        let id = choose|id: i64| states.contains_key(id) && #[trigger] states[id] == Some(false);
        assert(states.values().contains(Some(false)));
    }
    if !states.dom().is_empty() && !states.values().contains(None) && !states.values().contains(Some(false)) {
        assert forall|id: i64| states.contains_key(id) implies #[trigger] states[id] == Some(true) by {
            if states[id] != Some(true) {
                assert(states.values().contains(states[id]));
            }
        }
    }
    if !states.dom().is_empty() && (forall|id: i64| states.contains_key(id) ==> #[trigger] states[id] == Some(true)) {
        let id = states.dom().choose();
        assert(states.contains_key(id));
        assert(states[id] == Some(true));
    }
}

/// Computes the tray status from the last known status of each device.
pub fn calculate_tray_status(states: &HashMap<i64, Option<bool>>) -> (status: TrayStatus)
    ensures
        status == spec_tray_status(states@),
{
    if states.is_empty() {
        return TrayStatus::Neutral;
    }
    let ghost vals = vstd::std_specs::hash::spec_values_iter(states).remaining();
    let mut any_unknown = false;
    let mut any_offline = false;
    for v in it: states.values()
        invariant
            it.seq() == vals,
            vals.unref().to_set() == states@.values(),
            any_unknown <==> exists|j: int| 0 <= j < it.index() && *vals[j] == None::<bool>,
            any_offline <==> exists|j: int| 0 <= j < it.index() && *vals[j] == Some(false),
    {
        match v {
            None => {
                any_unknown = true;
            },
            Some(false) => {
                any_offline = true;
            },
            Some(true) => {},
        }
    }
    proof {
        let s = vals.unref();
        if states@.values().contains(None) {
            assert(s.to_set().contains(None));
            let j = choose|j: int| 0 <= j < s.len() && s[j] == None::<bool>;
            assert(*vals[j] == None::<bool>);
        }
        if states@.values().contains(Some(false)) {
            assert(s.to_set().contains(Some(false)));
            let j = choose|j: int| 0 <= j < s.len() && s[j] == Some(false);
            assert(*vals[j] == Some(false));
        }
        if any_unknown {
            let j = choose|j: int| 0 <= j < vals.len() && *vals[j] == None::<bool>;
            assert(s[j] == None::<bool>);
            assert(s.to_set().contains(None));
        }
        if any_offline {
            let j = choose|j: int| 0 <= j < vals.len() && *vals[j] == Some(false);
            assert(s[j] == Some(false));
            assert(s.to_set().contains(Some(false)));
        }
    }
    if any_unknown {
        TrayStatus::Neutral
    } else if any_offline {
        TrayStatus::HasOffline
    } else {
        TrayStatus::AllOnline
    }
}

/// The icon that stands for `status`.
pub open spec fn spec_tray_icon(status: TrayStatus) -> TrayIcon {
    match status {
        TrayStatus::Neutral => TrayIcon::Default,
        TrayStatus::AllOnline => TrayIcon::Green,
        TrayStatus::HasOffline => TrayIcon::Red,
    }
}

/// Chooses the tray icon for a status: the default icon while neutral, the
/// green one when all devices are online, the red one when one is offline.
pub fn tray_icon_for(status: TrayStatus) -> (icon: TrayIcon)
    ensures
        icon == spec_tray_icon(status),
{
    match status {
        TrayStatus::Neutral => TrayIcon::Default,
        TrayStatus::AllOnline => TrayIcon::Green,
        TrayStatus::HasOffline => TrayIcon::Red,
    }
}

/// What a click on an entry of the tray menu does.
#[derive(Debug, Clone, Copy, PartialEq, Eq, Structural)]
pub enum TrayMenuAction {
    /// Show and focus the main window.
    ShowWindow,
    /// Quit the application.
    Quit,
    /// Nothing.
    Ignore,
}

/// The action of the tray menu entry with id `id`: "open" shows the main
/// window, "quit" quits, any other entry does nothing.
pub open spec fn spec_tray_menu_action(id: Seq<char>) -> TrayMenuAction {
    if id == "open"@ {
        TrayMenuAction::ShowWindow
    } else if id == "quit"@ {
        TrayMenuAction::Quit
    } else {
        TrayMenuAction::Ignore
    }
}

/// The action of the tray menu entry with id `id`.
pub fn tray_menu_action(id: &str) -> (action: TrayMenuAction)
    ensures
        action == spec_tray_menu_action(id@),
{
    if str_equal(id, "open") {
        TrayMenuAction::ShowWindow
    } else if str_equal(id, "quit") {
        TrayMenuAction::Quit
    } else {
        TrayMenuAction::Ignore
    }
}

} // verus!
