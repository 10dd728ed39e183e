use space_shooter::controls::{command_for, Command, Effect, Flags, Input};

fn key(text: &str) -> Input {
    Input::Character(text.to_string())
}

fn running() -> Flags {
    Flags::new()
}

#[test]
fn keys_map_to_commands() {
    assert_eq!(command_for(&key("p")), Some(Command::TogglePause));
    assert_eq!(command_for(&key("c")), Some(Command::ToggleControls));
    assert_eq!(command_for(&key("g")), Some(Command::ToggleGravityDebug));
    assert_eq!(command_for(&key("r")), Some(Command::Restart));
    assert_eq!(command_for(&key("z")), Some(Command::ZoomIn));
    assert_eq!(command_for(&key("x")), Some(Command::ZoomOut));
    assert_eq!(command_for(&Input::Space), Some(Command::Fire));
    assert_eq!(command_for(&Input::LeftClick), Some(Command::Fire));
}

#[test]
fn other_keys_do_nothing() {
    assert_eq!(command_for(&key("P")), None);
    assert_eq!(command_for(&key("q")), None);
    assert_eq!(command_for(&key("pp")), None);
    assert_eq!(command_for(&key("")), None);
    assert_eq!(command_for(&key("é")), None);
    assert_eq!(command_for(&Input::Other), None);
}

#[test]
fn pause_freezes_and_shows_overlay() {
    let mut f = running();
    let fx = f.apply(Command::TogglePause);
    assert_eq!(fx, vec![Effect::ShowPauseOverlay, Effect::Pause]);
    assert!(f.paused);
    assert!(!f.show_controls);
}

#[test]
fn unpause_resumes_and_hides_both_panels() {
    let mut f = running();
    f.apply(Command::TogglePause);
    f.apply(Command::ToggleControls);
    assert!(f.show_controls);
    let fx = f.apply(Command::TogglePause);
    assert_eq!(fx, vec![Effect::Resume, Effect::HidePauseOverlay, Effect::HideControlsPanel]);
    assert!(!f.paused);
    assert!(!f.show_controls);
}

#[test]
fn pause_twice_restores_flags() {
    let mut f = running();
    f.apply(Command::ToggleGravityDebug);
    let start = f;
    f.apply(Command::TogglePause);
    f.apply(Command::TogglePause);
    assert_eq!(f, start);
}

#[test]
fn controls_panel_needs_pause() {
    let mut f = running();
    let fx = f.apply(Command::ToggleControls);
    assert!(fx.is_empty());
    assert!(!f.show_controls);
    f.apply(Command::TogglePause);
    assert_eq!(f.apply(Command::ToggleControls), vec![Effect::PlaceControlsPanel(true)]);
    assert_eq!(f.apply(Command::ToggleControls), vec![Effect::PlaceControlsPanel(false)]);
    assert!(!f.show_controls);
}

#[test]
fn game_over_ignores_pause_and_allows_restart() {
    let mut f = running();
    f.game_over = true;
    let before = f;
    assert!(f.apply(Command::TogglePause).is_empty());
    assert!(f.apply(Command::ToggleControls).is_empty());
    assert_eq!(f, before);
    assert_eq!(f.apply(Command::Restart), vec![Effect::ReloadScene]);
    assert_eq!(f, Flags::new());
}

#[test]
fn restart_does_nothing_while_playing() {
    let mut f = running();
    assert!(f.apply(Command::Restart).is_empty());
    f.apply(Command::TogglePause);
    assert!(f.apply(Command::Restart).is_empty());
}

#[test]
fn gravity_overlay_toggles_in_any_state() {
    let mut f = running();
    assert_eq!(f.apply(Command::ToggleGravityDebug), vec![Effect::SetGravityOverlays(true)]);
    f.game_over = true;
    assert_eq!(f.apply(Command::ToggleGravityDebug), vec![Effect::SetGravityOverlays(false)]);
    assert!(!f.show_gravity_debug);
}

#[test]
fn fire_and_zoom_pass_through() {
    let mut f = running();
    f.paused = true;
    let before = f;
    assert_eq!(f.apply(Command::Fire), vec![Effect::FireLaser]);
    assert_eq!(f.apply(Command::ZoomIn), vec![Effect::ZoomIn]);
    assert_eq!(f.apply(Command::ZoomOut), vec![Effect::ZoomOut]);
    assert_eq!(f, before);
}
