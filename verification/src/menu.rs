//! The platform menu model: which custom items the native menu carries,
//! under which submenu, with which identifier, label and accelerator.
//!
//! The native menu subsystem itself (widget construction, accelerator
//! registration, platform chrome such as the application submenu's
//! native entries) is host plumbing; this module fixes the one contract
//! the router has with it: the closed identifier set and each item's
//! placement.  Labels are the bundled default-language strings; a host
//! with a translation bundle may substitute them by key.

use vstd::prelude::*;

verus! {

/// The platforms the menu layout distinguishes: the close and
/// fullscreen accelerators differ on macOS, and the menu is left empty
/// on Windows, where the host draws no native menu bar.
#[derive(Clone, Copy, Debug, PartialEq, Eq, Structural)]
pub enum Os {
    MacOs,
    Windows,
    Other,
}

/// One custom menu item: its identifier (from the router's closed set),
/// its label, and its accelerator, if it has one.
pub struct MenuItem {
    pub id: String,
    pub label: String,
    pub accelerator: Option<String>,
}

/// The mathematical value of a [`MenuItem`].
#[verifier::ext_equal]
pub ghost struct MenuItemV {
    pub id: Seq<char>,
    pub label: Seq<char>,
    pub accelerator: Option<Seq<char>>,
}

impl View for MenuItem {
    type V = MenuItemV;

    open spec fn view(&self) -> MenuItemV {
        MenuItemV {
            id: self.id@,
            label: self.label@,
            accelerator: self.accelerator.deep_view(),
        }
    }
}

impl DeepView for MenuItem {
    type V = MenuItemV;

    open spec fn deep_view(&self) -> MenuItemV {
        self.view()
    }
}

/// One titled submenu of custom items.
pub struct Submenu {
    pub title: String,
    pub items: Vec<MenuItem>,
}

/// The mathematical value of a [`Submenu`].
#[verifier::ext_equal]
pub ghost struct SubmenuV {
    pub title: Seq<char>,
    pub items: Seq<MenuItemV>,
}

impl View for Submenu {
    type V = SubmenuV;

    open spec fn view(&self) -> SubmenuV {
        SubmenuV { title: self.title@, items: self.items.deep_view() }
    }
}

impl DeepView for Submenu {
    type V = SubmenuV;

    open spec fn deep_view(&self) -> SubmenuV {
        self.view()
    }
}

/// The accelerator that closes the window.
pub open spec fn close_accelerator_of(os: Os) -> Seq<char> {
    if os is MacOs {
        "Cmd+W"@
    } else {
        "Alt+F4"@
    }
}

/// The accelerator that toggles fullscreen.
pub open spec fn fullscreen_accelerator_of(os: Os) -> Seq<char> {
    if os is MacOs {
        "Cmd+Ctrl+F"@
    } else {
        "F11"@
    }
}

pub fn get_close_accelerator(os: Os) -> (r: String)
    ensures
        r@ == close_accelerator_of(os),
{
    match os {
        Os::MacOs => String::from_str("Cmd+W"),
        _ => String::from_str("Alt+F4"),
    }
}

pub fn get_fullscreen_accelerator(os: Os) -> (r: String)
    ensures
        r@ == fullscreen_accelerator_of(os),
{
    match os {
        Os::MacOs => String::from_str("Cmd+Ctrl+F"),
        _ => String::from_str("F11"),
    }
}

/// The default menu: file, view, window and help submenus, each item
/// carrying an identifier of the router's closed set.
pub open spec fn default_menu(os: Os) -> Seq<SubmenuV> {
    seq![
        SubmenuV {
            title: "File"@,
            items: seq![
                MenuItemV { id: "open"@, label: "Open..."@, accelerator: Some("CmdOrCtrl+O"@) },
                MenuItemV {
                    id: "remove"@,
                    label: "Move to Trash"@,
                    accelerator: Some("DELETE"@),
                },
                MenuItemV {
                    id: "close"@,
                    label: "Close"@,
                    accelerator: Some(close_accelerator_of(os)),
                },
            ],
        },
        SubmenuV {
            title: "View"@,
            items: seq![
                MenuItemV { id: "next"@, label: "Next Image"@, accelerator: Some("J"@) },
                MenuItemV { id: "prev"@, label: "Prev Image"@, accelerator: Some("K"@) },
                MenuItemV { id: "grid"@, label: "Toggle Grid View"@, accelerator: Some("H"@) },
            ],
        },
        SubmenuV {
            title: "Window"@,
            items: seq![
                MenuItemV {
                    id: "minimize"@,
                    label: "Minimize"@,
                    accelerator: Some("CmdOrCtrl+M"@),
                },
                MenuItemV { id: "zoom"@, label: "Zoom"@, accelerator: None },
                MenuItemV {
                    id: "fullscreen"@,
                    label: "Toggle Fullscreen"@,
                    accelerator: Some(fullscreen_accelerator_of(os)),
                },
            ],
        },
        SubmenuV {
            title: "Help"@,
            items: seq![
                MenuItemV { id: "support"@, label: "Support URL..."@, accelerator: None },
            ],
        },
    ]
}

fn item(id: &str, label: &str, accelerator: Option<String>) -> (r: MenuItem)
    ensures
        r@ == (MenuItemV { id: id@, label: label@, accelerator: accelerator.deep_view() }),
{
    MenuItem { id: String::from_str(id), label: String::from_str(label), accelerator }
}

/// Builds the default menu for a platform.
pub fn default(os: Os) -> (m: Vec<Submenu>)
    ensures
        m.deep_view() == default_menu(os),
{
    let mut file_items: Vec<MenuItem> = Vec::new();
    file_items.push(item("open", "Open...", Some(String::from_str("CmdOrCtrl+O"))));
    file_items.push(item("remove", "Move to Trash", Some(String::from_str("DELETE"))));
    file_items.push(item("close", "Close", Some(get_close_accelerator(os))));

    let mut view_items: Vec<MenuItem> = Vec::new();
    view_items.push(item("next", "Next Image", Some(String::from_str("J"))));
    view_items.push(item("prev", "Prev Image", Some(String::from_str("K"))));
    view_items.push(item("grid", "Toggle Grid View", Some(String::from_str("H"))));

    let mut window_items: Vec<MenuItem> = Vec::new();
    window_items.push(item("minimize", "Minimize", Some(String::from_str("CmdOrCtrl+M"))));
    window_items.push(item("zoom", "Zoom", None));
    window_items.push(item("fullscreen", "Toggle Fullscreen", Some(get_fullscreen_accelerator(os))));

    let mut help_items: Vec<MenuItem> = Vec::new();
    help_items.push(item("support", "Support URL...", None));

    let mut m: Vec<Submenu> = Vec::new();
    m.push(Submenu { title: String::from_str("File"), items: file_items });
    m.push(Submenu { title: String::from_str("View"), items: view_items });
    m.push(Submenu { title: String::from_str("Window"), items: window_items });
    m.push(Submenu { title: String::from_str("Help"), items: help_items });
    proof {
        assert(m.deep_view() =~~= default_menu(os));
    }
    m
}

/// The menu the host installs: none on Windows, the default menu
/// elsewhere.
pub open spec fn platform_menu(os: Os) -> Seq<SubmenuV> {
    if os is Windows {
        Seq::empty()
    } else {
        default_menu(os)
    }
}

/// Chooses the platform menu: Windows gets an empty menu bar, every
/// other platform the default menu.
pub fn menu_for_os(os: Os) -> (m: Vec<Submenu>)
    ensures
        m.deep_view() == platform_menu(os),
{
    match os {
        Os::Windows => {
            let m: Vec<Submenu> = Vec::new();
            proof {
                assert(m.deep_view() =~= Seq::<SubmenuV>::empty());
            }
            m
        },
        _ => default(os),
    }
}

} // verus!
