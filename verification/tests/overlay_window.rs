use wl_shortcuts_overlay::input_listener::AltState;
use wl_shortcuts_overlay::overlay::{
    column_count, compose_background, fill_fallback_background, grid_slot, OverlayState,
    OverlaySupervisor, PressedKey, SupervisorAction, SurfaceRequest,
};
use wl_shortcuts_overlay::util::Anchor;

fn centered() -> Anchor {
    Anchor { top: false, bottom: false, left: false, right: false }
}

#[test]
fn showing_before_the_surface_exists_requests_nothing() {
    let mut s = OverlayState::new(1200, 800, centered());
    assert!(s.show_overlay().is_empty());
    assert!(s.visible);
    assert!(s.show_overlay().is_empty());
}

#[test]
fn show_resizes_and_hide_unmaps() {
    let mut s = OverlayState::new(900, 500, centered());
    s.create_layer_surface();
    // A size set while hidden is kept for the next show.
    assert_eq!(s.set_overlay_size(10, 20), None);
    assert_eq!(
        s.show_overlay(),
        vec![SurfaceRequest::Resize { anchor: centered(), width: 10, height: 20 }]
    );
    assert_eq!(s.configure(), Some(SurfaceRequest::Draw));
    assert_eq!(s.hide_overlay(), Some(SurfaceRequest::Unmap));
    assert_eq!(s.hide_overlay(), None);
    assert_eq!(s.configure(), None);
}

#[test]
fn modifiers_and_control_key() {
    let mut s = OverlayState::new(100, 100, centered());
    s.create_layer_surface();
    assert_eq!(s.update_modifiers(true).len(), 1);
    assert!(s.press_key(PressedKey::Control).is_empty());
    assert!(s.keyboard_focus);
    assert!(s.press_key(PressedKey::Other).is_empty());
    assert_eq!(s.release_key(false), None);
    assert!(s.visible);
    assert_eq!(s.release_key(true), Some(SurfaceRequest::Unmap));
    assert!(!s.keyboard_focus && !s.visible);
    assert!(s.update_modifiers(false).is_empty());
    s.enter();
    assert!(s.keyboard_focus);
    s.leave();
    assert!(!s.keyboard_focus);
    s.destroy();
    assert!(!s.has_layer);
}

#[test]
fn supervisor_spawns_and_stops() {
    let mut sup = OverlaySupervisor::new();
    assert_eq!(sup.on_alt_state(AltState::Released), SupervisorAction::Nothing);
    assert_eq!(sup.on_alt_state(AltState::Pressed), SupervisorAction::SpawnOverlay);
    assert_eq!(sup.on_alt_state(AltState::Released), SupervisorAction::StopOverlay);
    assert_eq!(sup.on_alt_state(AltState::Released), SupervisorAction::Nothing);
}

#[test]
fn columns() {
    assert_eq!(column_count(10, 10), 1);
    assert_eq!(column_count(11, 10), 2);
    assert_eq!(column_count(21, 10), 3);
    assert_eq!(column_count(500, 10), 3);
    assert_eq!(grid_slot(0, 10, 2), Some((0, 0)));
    assert_eq!(grid_slot(13, 10, 2), Some((1, 3)));
    assert_eq!(grid_slot(20, 10, 2), None);
    assert_eq!(grid_slot(0, 0, 3), None);
}

#[test]
fn background_is_copied_as_bgra() {
    let pixels = vec![1, 2, 3, 4, 5, 6, 7, 8];
    let mut canvas = vec![0u8; 8];
    compose_background(&pixels, &mut canvas, 2, 1, false);
    assert_eq!(canvas, vec![3, 2, 1, 4, 7, 6, 5, 8]);
}

#[test]
fn short_panel_is_not_copied() {
    let pixels = vec![1, 2, 3];
    let mut canvas = vec![9, 8, 7, 6];
    compose_background(&pixels, &mut canvas, 1, 1, true);
    assert_eq!(canvas, vec![9, 8, 7, 6]);
}

#[test]
fn background_blur_in_canvas_order() {
    let pixels = vec![200, 0, 0, 255, 0, 0, 100, 255];
    let mut canvas = vec![0u8; 8];
    compose_background(&pixels, &mut canvas, 2, 1, true);
    // Both pixels become the mean, red (100) at byte 2 and blue (50) at byte 0.
    assert_eq!(canvas, vec![50, 0, 100, 255, 50, 0, 100, 255]);
}

#[test]
fn fallback_fill() {
    let mut canvas = vec![0u8; 10];
    fill_fallback_background(&mut canvas);
    assert_eq!(canvas, vec![200, 30, 30, 30, 200, 30, 30, 30, 0, 0]);
}

#[test]
fn zero_size_is_replaced_by_safe_defaults() {
    let mut s = OverlayState::new(900, 500, centered());
    s.create_layer_surface();
    s.show_overlay();
    assert_eq!(
        s.set_overlay_size(0, 0),
        Some(SurfaceRequest::Resize { anchor: centered(), width: 1200, height: 800 })
    );
    assert_eq!(
        s.set_overlay_size(0, 300),
        Some(SurfaceRequest::Resize { anchor: centered(), width: 1200, height: 300 })
    );
    assert_eq!((s.width, s.height), (1200, 300));
}

#[test]
fn escape_toggles_the_overlay() {
    let mut s = OverlayState::new(900, 500, centered());
    s.create_layer_surface();
    assert_eq!(
        s.press_key(PressedKey::Escape),
        vec![SurfaceRequest::Resize { anchor: centered(), width: 900, height: 500 }]
    );
    assert!(s.visible);
    assert_eq!(s.press_key(PressedKey::Escape), vec![SurfaceRequest::Unmap]);
    assert!(!s.visible);
}
