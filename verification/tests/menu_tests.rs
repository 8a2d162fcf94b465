use tauview::gateway::dialog_filter_extensions;
use tauview::locale::locale_or_default;
use tauview::menu::{get_close_accelerator, get_fullscreen_accelerator, menu_for_os, Os};
use tauview::order::{bytes_eq_exec, bytes_le_exec};

#[test]
fn accelerators_differ_by_platform() {
    assert_eq!(get_close_accelerator(Os::MacOs), "Cmd+W");
    assert_eq!(get_close_accelerator(Os::Other), "Alt+F4");
    assert_eq!(get_close_accelerator(Os::Windows), "Alt+F4");
    assert_eq!(get_fullscreen_accelerator(Os::MacOs), "Cmd+Ctrl+F");
    assert_eq!(get_fullscreen_accelerator(Os::Other), "F11");
}

#[test]
fn default_menu_carries_the_closed_identifier_set() {
    let menu = tauview::menu::default(Os::Other);
    let titles: Vec<&str> = menu.iter().map(|s| s.title.as_str()).collect();
    assert_eq!(titles, vec!["File", "View", "Window", "Help"]);
    let ids: Vec<&str> = menu
        .iter()
        .flat_map(|s| s.items.iter().map(|i| i.id.as_str()))
        .collect();
    assert_eq!(
        ids,
        vec![
            "open", "remove", "close", "next", "prev", "grid", "minimize", "zoom", "fullscreen",
            "support"
        ]
    );
}

#[test]
fn default_menu_labels_and_accelerators() {
    let menu = tauview::menu::default(Os::MacOs);
    let open = &menu[0].items[0];
    assert_eq!(open.label, "Open...");
    assert_eq!(open.accelerator.as_deref(), Some("CmdOrCtrl+O"));
    let close = &menu[0].items[2];
    assert_eq!(close.accelerator.as_deref(), Some("Cmd+W"));
    let zoom = &menu[2].items[1];
    assert_eq!(zoom.accelerator, None);
    let fullscreen = &menu[2].items[2];
    assert_eq!(fullscreen.accelerator.as_deref(), Some("Cmd+Ctrl+F"));
}

#[test]
fn windows_gets_an_empty_menu_bar() {
    assert_eq!(menu_for_os(Os::Windows).len(), 0);
    assert_eq!(menu_for_os(Os::MacOs).len(), 4);
    assert_eq!(menu_for_os(Os::Other).len(), 4);
}

#[test]
fn dialog_filter_lists_the_supported_extensions() {
    let filters = dialog_filter_extensions();
    let as_str: Vec<&str> = filters.iter().map(|s| s.as_str()).collect();
    assert_eq!(as_str, vec!["ico", "gif", "png", "jpg", "jpeg", "webp"]);
}

#[test]
fn locale_falls_back_to_the_default_tag() {
    assert_eq!(locale_or_default(None), "en-US");
    assert_eq!(locale_or_default(Some("ja-JP".to_string())), "ja-JP");
}

#[test]
fn byte_order_is_case_sensitive_ascii() {
    // 'B' (0x42) precedes 'a' (0x61): upper case sorts first.
    assert!(bytes_le_exec(&b"B.PNG".to_vec(), &b"a.png".to_vec()));
    assert!(!bytes_le_exec(&b"a.png".to_vec(), &b"B.PNG".to_vec()));
    // A prefix precedes its extensions.
    assert!(bytes_le_exec(&b"a".to_vec(), &b"a.png".to_vec()));
    assert!(bytes_eq_exec(&b"a.png".to_vec(), &b"a.png".to_vec()));
    assert!(!bytes_eq_exec(&b"a.png".to_vec(), &b"a.PNG".to_vec()));
}
