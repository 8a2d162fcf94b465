use tauview::gateway::{dialog_seed, DialogOutcome};
use tauview::router::{
    dialog_event, event_name, parse_action, route, AppEvent, Directive, MenuAction, WindowProbe,
};

fn probe(maximized: Option<bool>, fullscreen: Option<bool>) -> WindowProbe {
    WindowProbe { maximized, fullscreen }
}

#[test]
fn parses_every_known_identifier() {
    assert_eq!(parse_action(&"open".to_string()), MenuAction::Open);
    assert_eq!(parse_action(&"close".to_string()), MenuAction::Close);
    assert_eq!(parse_action(&"next".to_string()), MenuAction::Next);
    assert_eq!(parse_action(&"prev".to_string()), MenuAction::Prev);
    assert_eq!(parse_action(&"grid".to_string()), MenuAction::Grid);
    assert_eq!(parse_action(&"remove".to_string()), MenuAction::Remove);
    assert_eq!(parse_action(&"minimize".to_string()), MenuAction::Minimize);
    assert_eq!(parse_action(&"zoom".to_string()), MenuAction::Zoom);
    assert_eq!(parse_action(&"fullscreen".to_string()), MenuAction::Fullscreen);
    assert_eq!(parse_action(&"support".to_string()), MenuAction::Support);
}

#[test]
fn unrecognized_identifiers_are_ignored_not_fatal() {
    let action = parse_action(&"brand-new-action".to_string());
    assert_eq!(action, MenuAction::Unknown);
    assert_eq!(route(action, &probe(None, None)), Directive::Ignore);
}

#[test]
fn navigation_actions_emit_exactly_their_event() {
    let p = probe(Some(false), Some(false));
    assert_eq!(route(MenuAction::Next, &p), Directive::Emit(AppEvent::Next));
    assert_eq!(route(MenuAction::Prev, &p), Directive::Emit(AppEvent::Prev));
    assert_eq!(route(MenuAction::Grid, &p), Directive::Emit(AppEvent::Grid));
    assert_eq!(route(MenuAction::Remove, &p), Directive::Emit(AppEvent::Remove));
}

#[test]
fn open_requests_the_dialog_and_close_exits() {
    let p = probe(None, None);
    assert_eq!(route(MenuAction::Open, &p), Directive::OpenDialog);
    assert_eq!(route(MenuAction::Close, &p), Directive::Exit);
    assert_eq!(route(MenuAction::Support, &p), Directive::OpenSupportUrl);
    assert_eq!(route(MenuAction::Minimize, &p), Directive::Minimize);
}

#[test]
fn zoom_flips_the_queried_window_state() {
    assert_eq!(
        route(MenuAction::Zoom, &probe(Some(true), None)),
        Directive::SetMaximized(false)
    );
    assert_eq!(
        route(MenuAction::Zoom, &probe(Some(false), None)),
        Directive::SetMaximized(true)
    );
}

#[test]
fn fullscreen_flips_the_queried_window_state() {
    assert_eq!(
        route(MenuAction::Fullscreen, &probe(None, Some(true))),
        Directive::SetFullscreen(false)
    );
    assert_eq!(
        route(MenuAction::Fullscreen, &probe(None, Some(false))),
        Directive::SetFullscreen(true)
    );
}

#[test]
fn failed_state_query_degrades_to_a_no_op() {
    assert_eq!(route(MenuAction::Zoom, &probe(None, Some(true))), Directive::Ignore);
    assert_eq!(route(MenuAction::Fullscreen, &probe(Some(true), None)), Directive::Ignore);
}

#[test]
fn cancelled_dialog_yields_no_selection_and_no_open_event() {
    assert_eq!(dialog_seed(DialogOutcome::Cancelled), None);
    assert_eq!(dialog_event(DialogOutcome::Cancelled), None);
}

#[test]
fn chosen_path_seeds_an_open_event() {
    let path = b"/pics/a.png".to_vec();
    assert_eq!(
        dialog_seed(DialogOutcome::Selected(path.clone())),
        Some(path.clone())
    );
    assert_eq!(
        dialog_event(DialogOutcome::Selected(path.clone())),
        Some(AppEvent::Open(path))
    );
}

#[test]
fn event_wire_names() {
    assert_eq!(event_name(&AppEvent::Open(b"/p".to_vec())), "open");
    assert_eq!(event_name(&AppEvent::Next), "menu-next");
    assert_eq!(event_name(&AppEvent::Prev), "menu-prev");
    assert_eq!(event_name(&AppEvent::Grid), "menu-grid");
    assert_eq!(event_name(&AppEvent::Remove), "menu-remove");
}
