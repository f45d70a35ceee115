use mangameeya::input::{ctrl, default_bindings, key, Command, GestureDirection, InputBindings, KeyCombo, MouseAction};
use mangameeya::mouse::{is_double_click, DoubleClickDetector};
use mangameeya::vk;

#[test]
fn test_command_display_name() {
    assert_eq!(Command::NextPage.display_name(), "Next Page");
    assert_eq!(Command::Quit.display_name(), "Quit");
    assert_eq!(Command::JumpForward10.display_name(), "Jump Forward 10 Pages");
    assert_eq!(Command::ToggleAutoSplit.display_name(), "Toggle Auto Split");
}

#[test]
fn display_name_unknown_for_unnamed_commands() {
    assert_eq!(Command::PrintImage.display_name(), "Unknown");
    assert_eq!(Command::SetScaleFitWindow2Pages.display_name(), "Fit Window to 2 Pages");
}

#[test]
fn test_command_equality() {
    assert_eq!(Command::NextPage, Command::NextPage);
    assert_ne!(Command::NextPage, Command::PrevPage);
}

#[test]
fn test_command_clone() {
    let cmd = Command::ToggleFullscreen;
    let cloned = cmd;
    assert_eq!(cmd, cloned);
}

#[test]
fn test_default_keybindings() {
    let bindings = default_bindings();
    assert_eq!(bindings.keyboard_command(&key(vk::PAGE_DOWN)), Some(Command::NextPage));
    assert_eq!(bindings.keyboard_command(&key(vk::PAGE_UP)), Some(Command::PrevPage));
    assert_eq!(bindings.keyboard_command(&key(vk::HOME)), Some(Command::FirstPage));
    assert_eq!(bindings.keyboard_command(&key(vk::END)), Some(Command::LastPage));
}

#[test]
fn test_ctrl_bindings() {
    let bindings = default_bindings();
    assert_eq!(bindings.keyboard_command(&ctrl(vk::KEY_O)), Some(Command::OpenFile));
    assert_eq!(bindings.keyboard_command(&ctrl(vk::KEY_Q)), Some(Command::Quit));
    assert_eq!(bindings.keyboard_command(&key(vk::KEY_O)), None);
}

#[test]
fn test_unbound_key() {
    let bindings = default_bindings();
    let unbound = KeyCombo { key: 999, ctrl: false, shift: false, alt: false };
    assert_eq!(bindings.keyboard_command(&unbound), None);
}

#[test]
fn test_mouse_bindings() {
    let bindings = default_bindings();
    assert_eq!(bindings.mouse_command(MouseAction::WheelUp), Some(Command::ScrollUp));
    assert_eq!(bindings.mouse_command(MouseAction::DoubleClick), Some(Command::ToggleFullscreen));
    assert_eq!(bindings.mouse_command(MouseAction::LongPress), None);
}

#[test]
fn test_gesture_bindings() {
    let bindings = default_bindings();
    assert_eq!(bindings.gesture_command(&[GestureDirection::Right]), Some(Command::NextPage));
    assert_eq!(bindings.gesture_command(&[GestureDirection::Up, GestureDirection::Down]), Some(Command::Refresh));
    assert_eq!(bindings.gesture_command(&[GestureDirection::Down]), None);
}

#[test]
fn default_trait_gives_default_bindings() {
    let bindings = InputBindings::default();
    assert_eq!(bindings.keyboard.len(), 26);
    assert_eq!(bindings.keyboard_command(&key(vk::SPACE)), Some(Command::NextPage));
}

#[test]
fn test_double_click_fast() {
    let mut det = DoubleClickDetector::new(500);
    assert!(!det.click());
    assert!(det.click());
}

#[test]
fn test_double_click_resets() {
    let mut det = DoubleClickDetector::new(500);
    det.click();
    det.click();
    assert!(!det.click());
}

#[test]
fn double_click_decision() {
    assert!(is_double_click(Some(499), 500));
    assert!(!is_double_click(Some(500), 500));
    assert!(!is_double_click(None, 500));
}

#[test]
fn double_click_measures_from_the_pending_click() {
    let mut det = DoubleClickDetector::new(500);
    assert!(!det.click_at(0));
    assert!(!det.click_at(600_000_000));
    assert!(det.click_at(900_000_000));
    assert!(!det.click_at(950_000_000));
    assert!(!det.click_at(1_450_000_000));
    assert!(!det.click_at(1_950_000_000));
    assert!(det.click_at(2_449_999_999));
}
