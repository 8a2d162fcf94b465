//! The menu-action router: from a native menu identifier to exactly one
//! semantic application event or host window operation.
//!
//! The router holds no state.  Window-chrome toggles read the queried
//! window state and flip it; a failed state query degrades to a no-op,
//! never a crash.  Unrecognized identifiers are ignored so that newer
//! native menus stay compatible.

use crate::gateway::DialogOutcome;
use vstd::prelude::*;

verus! {

/// The closed set of menu identifiers, with one forward-compatibility
/// arm for identifiers this version does not know.
#[derive(Clone, Copy, Debug, PartialEq, Eq, Structural)]
pub enum MenuAction {
    Open,
    Close,
    Next,
    Prev,
    Grid,
    Remove,
    Minimize,
    Zoom,
    Fullscreen,
    Support,
    Unknown,
}

/// A semantic event for the presentation layer.
#[derive(Debug, PartialEq, Eq)]
pub enum AppEvent {
    Open(Vec<u8>),
    Next,
    Prev,
    Grid,
    Remove,
}

/// The window state the router reads before a toggle; `None` records a
/// failed query, on which the toggle is a no-op.
#[derive(Clone, Copy, Debug)]
pub struct WindowProbe {
    pub maximized: Option<bool>,
    pub fullscreen: Option<bool>,
}

/// What the host must do for one routed action.
#[derive(Debug, PartialEq, Eq)]
pub enum Directive {
    OpenDialog,
    Exit,
    Emit(AppEvent),
    Minimize,
    SetMaximized(bool),
    SetFullscreen(bool),
    OpenSupportUrl,
    Ignore,
}

/// The action a menu identifier names; anything outside the closed set
/// is `Unknown`.
pub open spec fn action_of(id: Seq<char>) -> MenuAction {
    if id == "open"@ {
        MenuAction::Open
    } else if id == "close"@ {
        MenuAction::Close
    } else if id == "next"@ {
        MenuAction::Next
    } else if id == "prev"@ {
        MenuAction::Prev
    } else if id == "grid"@ {
        MenuAction::Grid
    } else if id == "remove"@ {
        MenuAction::Remove
    } else if id == "minimize"@ {
        MenuAction::Minimize
    } else if id == "zoom"@ {
        MenuAction::Zoom
    } else if id == "fullscreen"@ {
        MenuAction::Fullscreen
    } else if id == "support"@ {
        MenuAction::Support
    } else {
        MenuAction::Unknown
    }
}

/// Parses a native menu identifier into the action it names.
pub fn parse_action(id: &String) -> (a: MenuAction)
    ensures
        a == action_of(id@),
{
    if *id == String::from_str("open") {
        MenuAction::Open
    } else if *id == String::from_str("close") {
        MenuAction::Close
    } else if *id == String::from_str("next") {
        MenuAction::Next
    } else if *id == String::from_str("prev") {
        MenuAction::Prev
    } else if *id == String::from_str("grid") {
        MenuAction::Grid
    } else if *id == String::from_str("remove") {
        MenuAction::Remove
    } else if *id == String::from_str("minimize") {
        MenuAction::Minimize
    } else if *id == String::from_str("zoom") {
        MenuAction::Zoom
    } else if *id == String::from_str("fullscreen") {
        MenuAction::Fullscreen
    } else if *id == String::from_str("support") {
        MenuAction::Support
    } else {
        MenuAction::Unknown
    }
}

/// What the router does for each action and queried window state: every
/// navigation action emits exactly one event; window-chrome toggles flip
/// the queried state and degrade to a no-op when the query failed;
/// unknown identifiers are ignored.
pub open spec fn route_of(a: MenuAction, maximized: Option<bool>, fullscreen: Option<bool>)
    -> Directive {
    match a {
        MenuAction::Open => Directive::OpenDialog,
        MenuAction::Close => Directive::Exit,
        MenuAction::Next => Directive::Emit(AppEvent::Next),
        MenuAction::Prev => Directive::Emit(AppEvent::Prev),
        MenuAction::Grid => Directive::Emit(AppEvent::Grid),
        MenuAction::Remove => Directive::Emit(AppEvent::Remove),
        MenuAction::Minimize => Directive::Minimize,
        MenuAction::Zoom => match maximized {
            Some(m) => Directive::SetMaximized(!m),
            None => Directive::Ignore,
        },
        MenuAction::Fullscreen => match fullscreen {
            Some(f) => Directive::SetFullscreen(!f),
            None => Directive::Ignore,
        },
        MenuAction::Support => Directive::OpenSupportUrl,
        MenuAction::Unknown => Directive::Ignore,
    }
}

/// Routes one menu action, consuming it exactly once.
pub fn route(a: MenuAction, probe: &WindowProbe) -> (d: Directive)
    ensures
        d == route_of(a, probe.maximized, probe.fullscreen),
{
    match a {
        MenuAction::Open => Directive::OpenDialog,
        MenuAction::Close => Directive::Exit,
        MenuAction::Next => Directive::Emit(AppEvent::Next),
        MenuAction::Prev => Directive::Emit(AppEvent::Prev),
        MenuAction::Grid => Directive::Emit(AppEvent::Grid),
        MenuAction::Remove => Directive::Emit(AppEvent::Remove),
        MenuAction::Minimize => Directive::Minimize,
        MenuAction::Zoom => match probe.maximized {
            Some(m) => Directive::SetMaximized(!m),
            None => Directive::Ignore,
        },
        MenuAction::Fullscreen => match probe.fullscreen {
            Some(f) => Directive::SetFullscreen(!f),
            None => Directive::Ignore,
        },
        MenuAction::Support => Directive::OpenSupportUrl,
        MenuAction::Unknown => Directive::Ignore,
    }
}

/// The event that completes an "open" action once the dialog returns: a
/// chosen path becomes an open event carrying that path; cancellation
/// emits nothing at all.
pub fn dialog_event(outcome: DialogOutcome) -> (r: Option<AppEvent>)
    ensures
        match outcome {
            DialogOutcome::Selected(p) => r == Some(AppEvent::Open(p)),
            DialogOutcome::Cancelled => r is None,
        },
{
    match outcome {
        DialogOutcome::Selected(p) => Some(AppEvent::Open(p)),
        DialogOutcome::Cancelled => None,
    }
}

/// The wire name of each emitted event.
pub open spec fn event_name_of(e: AppEvent) -> Seq<char> {
    match e {
        AppEvent::Open(_) => "open"@,
        AppEvent::Next => "menu-next"@,
        AppEvent::Prev => "menu-prev"@,
        AppEvent::Grid => "menu-grid"@,
        AppEvent::Remove => "menu-remove"@,
    }
}

/// The name under which the host emits an event to the presentation
/// layer.
pub fn event_name(e: &AppEvent) -> (r: String)
    ensures
        r@ == event_name_of(*e),
{
    match e {
        AppEvent::Open(_) => String::from_str("open"),
        AppEvent::Next => String::from_str("menu-next"),
        AppEvent::Prev => String::from_str("menu-prev"),
        AppEvent::Grid => String::from_str("menu-grid"),
        AppEvent::Remove => String::from_str("menu-remove"),
    }
}

} // verus!
