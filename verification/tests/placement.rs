use wl_shortcuts_overlay::singleton::get_lock_path;
use wl_shortcuts_overlay::util::{join_path, merge_cli_opts_config, to_anchor, Anchor, Placement};

fn anchor(top: bool, bottom: bool, left: bool, right: bool) -> Anchor {
    Anchor { top, bottom, left, right }
}

#[test]
fn anchors_by_name() {
    let none = anchor(false, false, false, false);
    assert_eq!(to_anchor(None), none);
    assert_eq!(to_anchor(Some("center".to_string())), none);
    assert_eq!(to_anchor(Some("Center".to_string())), none);
    assert_eq!(to_anchor(Some("topleft".to_string())), anchor(true, false, true, false));
    assert_eq!(to_anchor(Some("TopRight".to_string())), anchor(true, false, false, true));
    assert_eq!(to_anchor(Some("bottomleft".to_string())), anchor(false, true, true, false));
    assert_eq!(to_anchor(Some("BottomRight".to_string())), anchor(false, true, false, true));
    assert_eq!(to_anchor(Some("top".to_string())), anchor(true, false, false, false));
    assert_eq!(to_anchor(Some("Bottom".to_string())), anchor(false, true, false, false));
    assert_eq!(to_anchor(Some("left".to_string())), anchor(false, false, true, false));
    assert_eq!(to_anchor(Some("Right".to_string())), anchor(false, false, false, true));
    assert_eq!(to_anchor(Some("TOPLEFT".to_string())), none);
    assert_eq!(to_anchor(Some("middle".to_string())), none);
}

#[test]
fn paths_join_with_one_slash() {
    assert_eq!(join_path("/run/user/1000", "x.lock"), "/run/user/1000/x.lock");
    assert_eq!(join_path("/tmp/", "x.lock"), "/tmp/x.lock");
    assert_eq!(join_path("", "x.lock"), "x.lock");
}

#[test]
fn lock_path_choice() {
    assert_eq!(get_lock_path(Some("/run/user/1000"), Some("/var/tmp")), "/run/user/1000/wl-shortcuts-overlay.lock");
    assert_eq!(get_lock_path(None, Some("/var/tmp")), "/var/tmp/wl-shortcuts-overlay.lock");
    assert_eq!(get_lock_path(None, None), "/tmp/wl-shortcuts-overlay.lock");
}

#[test]
fn command_line_values_override_the_configuration() {
    let config = || Placement { width: 1200, height: 800, anchor: "center".to_string() };
    let kept = merge_cli_opts_config(config(), None, None, None);
    assert_eq!((kept.width, kept.height, kept.anchor.as_str()), (1200, 800, "center"));
    let all = merge_cli_opts_config(config(), Some(640), Some(480), Some("topleft".to_string()));
    assert_eq!((all.width, all.height, all.anchor.as_str()), (640, 480, "topleft"));
    let some = merge_cli_opts_config(config(), None, Some(300), None);
    assert_eq!((some.width, some.height, some.anchor.as_str()), (1200, 300, "center"));
}
