use wl_shortcuts_overlay::shortcut_reader::{parse_desktop_file, DesktopEntryError, ShortcutReader};

#[test]
fn test_get_xdg_data_dirs() {
    let dirs = ShortcutReader::get_xdg_data_dirs(None, None);
    assert!(!dirs.is_empty(), "Should have at least one data directory");
}

#[test]
fn xdg_data_dirs_values() {
    assert_eq!(
        ShortcutReader::get_xdg_data_dirs(Some("/home/ann"), None),
        vec!["/home/ann/.local/share", "/usr/local/share", "/usr/share"]
    );
    assert_eq!(
        ShortcutReader::get_xdg_data_dirs(Some("/home/ann/"), Some("/opt/share")),
        vec!["/home/ann/.local/share", "/opt/share"]
    );
    assert_eq!(ShortcutReader::get_xdg_data_dirs(None, Some("")), vec![""]);
    assert_eq!(ShortcutReader::get_xdg_data_dirs(None, Some("a::b")), vec!["a", "", "b"]);
}

const FIREFOX: &str = "[Desktop Entry]\r\nName = Firefox \nExec=firefox %u\nIcon=firefox\n# a comment\nComment=Browse the web\nCategories=Network;WebBrowser;;\n\n[Desktop Action new-window]\nName=New Window\nExec=firefox --new-window\n";

#[test]
fn parse_full_entry() {
    let e = parse_desktop_file(FIREFOX).unwrap();
    assert_eq!(e.name, "Firefox");
    assert_eq!(e.exec_command.as_deref(), Some("firefox %u"));
    assert_eq!(e.icon.as_deref(), Some("firefox"));
    assert_eq!(e.comment.as_deref(), Some("Browse the web"));
    assert_eq!(e.categories, vec!["Network", "WebBrowser"]);
}

#[test]
fn parse_later_lines_override_and_other_sections_are_ignored() {
    let content = "Name=Outside\n[Desktop Entry]\nName=First\nName=Second\nKey without value\n[Other]\nName=Other\n";
    let e = parse_desktop_file(content).unwrap();
    assert_eq!(e.name, "Second");
    assert_eq!(e.exec_command, None);
    assert!(e.categories.is_empty());
}

#[test]
fn parse_value_may_hold_equals_sign() {
    let e = parse_desktop_file("[Desktop Entry]\nName=a=b\nExec= =x= \n").unwrap();
    assert_eq!(e.name, "a=b");
    assert_eq!(e.exec_command.as_deref(), Some("=x="));
}

#[test]
fn parse_missing_name() {
    assert_eq!(parse_desktop_file("").unwrap_err(), DesktopEntryError::MissingName);
    assert_eq!(
        parse_desktop_file("Name=Nowhere\n[Desktop Entry]\nExec=x\n").unwrap_err(),
        DesktopEntryError::MissingName
    );
    assert_eq!(parse_desktop_file("[Desktop Entry]\n#Name=Commented\n").unwrap_err(), DesktopEntryError::MissingName);
}

#[test]
fn reader_loads_entries_in_order() {
    let mut reader = ShortcutReader::new();
    assert!(reader.get_entries().is_empty());
    let files = vec![
        FIREFOX.to_string(),
        "no entry here".to_string(),
        "[Desktop Entry]\nName=Terminal\n".to_string(),
    ];
    reader.load_shortcuts(&files);
    let names: Vec<&str> = reader.get_entries().iter().map(|e| e.name.as_str()).collect();
    assert_eq!(names, vec!["Firefox", "Terminal"]);
    reader.load_shortcuts(&vec!["[Desktop Entry]\nName=Files".to_string()]);
    assert_eq!(reader.get_entries().len(), 3);
    assert_eq!(reader.get_entries()[2].name, "Files");
}
