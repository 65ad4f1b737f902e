use wl_shortcuts_overlay::keybinding_reader::{
    collect_keybindings, command_of, localize_action, Action, Direction, FocusDirection,
    KeyBinding, Keysym, Modifiers, Shortcut, SystemAction,
};

fn mods(logo: bool, ctrl: bool, alt: bool, shift: bool) -> Modifiers {
    Modifiers { ctrl, alt, shift, logo }
}

fn key(raw: u32, name: &str) -> Option<Keysym> {
    Some(Keysym { raw, name: name.to_string() })
}

fn shortcut(m: Modifiers, k: Option<Keysym>, description: Option<&str>, action: Action) -> Shortcut {
    Shortcut { modifiers: m, key: k, description: description.map(|d| d.to_string()), action }
}

#[test]
fn modifiers_new_holds_nothing() {
    let m = Modifiers::new();
    assert!(!m.ctrl && !m.alt && !m.shift && !m.logo);
    assert_eq!(m.to_string(), "");
}

#[test]
fn modifiers_text_order() {
    assert_eq!(mods(true, true, true, true).to_string(), "Super + Ctrl + Alt + Shift");
    assert_eq!(mods(false, false, true, true).to_string(), "Alt + Shift");
    assert_eq!(mods(true, false, false, false).to_string(), "Super");
}

#[test]
fn keybinding_text() {
    let b = KeyBinding {
        modifiers: mods(true, false, false, true),
        key: key(0x71, "q"),
        description: "Close window".to_string(),
        _command: "Close".to_string(),
        keybind_display: None,
    };
    assert_eq!(b.to_string(), "Super + Shift + q");
    let only_key = KeyBinding {
        modifiers: Modifiers::new(),
        key: key(0xffbe, "KEY_F1"),
        description: "Help".to_string(),
        _command: String::new(),
        keybind_display: None,
    };
    assert_eq!(only_key.to_string(), "F1");
    let prepared = KeyBinding { keybind_display: Some("A / B".to_string()), ..only_key };
    assert_eq!(prepared.to_string(), "A / B");
}

#[test]
fn localized_actions() {
    assert_eq!(localize_action(&Action::Close), "Close window");
    assert_eq!(localize_action(&Action::Focus(FocusDirection::In)), "Focus in");
    assert_eq!(localize_action(&Action::Workspace(3)), "Workspace 3");
    assert_eq!(localize_action(&Action::MoveToWorkspace(12)), "Move window to workspace 12");
    assert_eq!(localize_action(&Action::SendToWorkspace(0)), "Move window to workspace 0");
    assert_eq!(localize_action(&Action::MoveToOutput(Direction::Left)), "Move window one monitor left");
    assert_eq!(localize_action(&Action::SendToPreviousWorkspace), "Move window to prev wrkspace");
    assert_eq!(localize_action(&Action::System(SystemAction::Terminal)), "Open a terminal");
    assert_eq!(localize_action(&Action::Spawn("firefox".to_string())), "firefox");
}

#[test]
fn command_texts() {
    assert_eq!(command_of(&Action::Spawn("foot -e htop".to_string())), "foot -e htop");
    assert_eq!(command_of(&Action::System(SystemAction::LockScreen)), "LockScreen");
    assert_eq!(command_of(&Action::Workspace(4)), "Workspace(4)");
    assert_eq!(command_of(&Action::Move(Direction::Up)), "Move(Up)");
    assert_eq!(command_of(&Action::Maximize), "Maximize");
    assert_eq!(command_of(&Action::Focus(FocusDirection::Out)), format!("{:?}", Action::Focus(FocusDirection::Out)));
}

#[test]
fn collect_groups_sorts_and_filters() {
    let shortcuts = vec![
        shortcut(mods(true, false, false, false), key(0x74, "t"), None, Action::System(SystemAction::Terminal)),
        shortcut(mods(true, false, false, false), key(0x71, "q"), None, Action::Close),
        shortcut(mods(false, false, true, false), key(0xffc1, "F4"), None, Action::Close),
        shortcut(mods(true, true, false, false), key(0x71, "q"), None, Action::Close),
        shortcut(mods(true, false, false, false), key(0x64, "d"), None, Action::Disable),
        shortcut(Modifiers::new(), key(0x1008ff12, "XF86AudioMute"), None, Action::System(SystemAction::Mute)),
        shortcut(mods(true, false, false, false), key(0x66, "f"), Some("Browser"), Action::Spawn("firefox".to_string())),
    ];
    let out = collect_keybindings(&shortcuts);
    let descriptions: Vec<&str> = out.iter().map(|b| b.description.as_str()).collect();
    assert_eq!(descriptions, vec!["Browser", "Close window", "Open a terminal"]);
    assert_eq!(out[0].to_string(), "Super + f");
    assert_eq!(out[0]._command, "firefox");
    assert_eq!(out[1].keybind_display.as_deref(), Some("Super + q / Alt + F4"));
    assert_eq!(out[1].to_string(), "Super + q / Alt + F4");
    assert_eq!(out[1]._command, "Close");
    assert_eq!(out[2].keybind_display, None);
    assert_eq!(out[2]._command, "Terminal");
}

#[test]
fn collect_of_nothing_is_empty() {
    assert!(collect_keybindings(&vec![]).is_empty());
    let only_disabled = vec![shortcut(Modifiers::new(), key(0x61, "a"), None, Action::Disable)];
    assert!(collect_keybindings(&only_disabled).is_empty());
}

#[test]
fn collect_keeps_first_of_a_group_even_with_multimedia_second() {
    // The entry is judged by its first binding's key.
    let shortcuts = vec![
        shortcut(mods(true, false, false, false), key(0x6d, "m"), Some("Mute"), Action::System(SystemAction::Mute)),
        shortcut(Modifiers::new(), key(0x1008ff12, "XF86AudioMute"), Some("Mute"), Action::System(SystemAction::Mute)),
    ];
    let out = collect_keybindings(&shortcuts);
    assert_eq!(out.len(), 1);
    assert_eq!(out[0].to_string(), "Super + m / XF86AudioMute");
    let reversed = vec![
        shortcut(Modifiers::new(), key(0x1008ff12, "XF86AudioMute"), Some("Mute"), Action::System(SystemAction::Mute)),
        shortcut(mods(true, false, false, false), key(0x6d, "m"), Some("Mute"), Action::System(SystemAction::Mute)),
    ];
    assert!(collect_keybindings(&reversed).is_empty());
}

#[test]
fn collect_sorts_by_code_point() {
    let shortcuts = vec![
        shortcut(Modifiers::new(), None, Some("b"), Action::Close),
        shortcut(Modifiers::new(), None, Some("B"), Action::Close),
        shortcut(Modifiers::new(), None, Some("ab"), Action::Close),
        shortcut(Modifiers::new(), None, Some("a"), Action::Close),
    ];
    let out = collect_keybindings(&shortcuts);
    let descriptions: Vec<&str> = out.iter().map(|b| b.description.as_str()).collect();
    assert_eq!(descriptions, vec!["B", "a", "ab", "b"]);
}

#[test]
fn only_disabled_shortcuts_give_no_entries() {
    let shortcuts = vec![
        shortcut(mods(true, false, false, false), key(0x71, "q"), Some("Quit"), Action::Disable),
        shortcut(Modifiers::new(), key(0x61, "a"), None, Action::Disable),
    ];
    assert!(collect_keybindings(&shortcuts).is_empty());
}
