use card_test::preview_plugins::{
    card_image_path, check_long_press, check_quit_preview, handle_mouse_input, preview_on_click,
    ImagePreview, PreviewButton,
};

fn button(pressed: bool, code: &str) -> PreviewButton {
    PreviewButton { pressed, code: code.to_string() }
}

#[test]
fn card_image_path_formats_the_code() {
    assert_eq!(card_image_path("NAAI-A-001"), "cards/NAAI-A-001.png");
    assert_eq!(card_image_path(""), "cards/.png");
}

#[test]
fn handle_mouse_input_press_starts_a_hold() {
    let r = handle_mouse_input(false, 2, true, false);
    assert!(r.pressed);
    assert!(r.reset_timer);
}

#[test]
fn handle_mouse_input_press_while_held_keeps_the_timer() {
    let r = handle_mouse_input(true, 3, true, false);
    assert!(r.pressed);
    assert!(!r.reset_timer);
}

#[test]
fn handle_mouse_input_release_ends_the_hold() {
    let r = handle_mouse_input(true, 1, false, true);
    assert!(!r.pressed);
    assert!(r.reset_timer);
}

#[test]
fn handle_mouse_input_press_and_release_in_one_frame() {
    let r = handle_mouse_input(false, 2, true, true);
    assert!(!r.pressed);
    assert!(r.reset_timer);
}

#[test]
fn handle_mouse_input_without_buttons_changes_nothing() {
    let r = handle_mouse_input(false, 0, true, false);
    assert!(!r.pressed);
    assert!(!r.reset_timer);
    let r = handle_mouse_input(true, 0, false, true);
    assert!(r.pressed);
    assert!(!r.reset_timer);
}

#[test]
fn handle_mouse_input_quiet_frame() {
    let r = handle_mouse_input(true, 4, false, false);
    assert!(r.pressed);
    assert!(!r.reset_timer);
}

#[test]
fn check_long_press_stages_the_last_pressed_card() {
    let buttons = vec![
        button(true, "S001-A-001"),
        button(false, "X"),
        button(true, "NAAI-A-001"),
        button(false, "Y"),
    ];
    assert_eq!(check_long_press(true, &buttons), Some("cards/NAAI-A-001.png".to_string()));
}

#[test]
fn check_long_press_waits_for_the_timer() {
    let buttons = vec![button(true, "S001-A-001")];
    assert_eq!(check_long_press(false, &buttons), None);
}

#[test]
fn check_long_press_without_a_pressed_button() {
    let buttons = vec![button(false, "S001-A-001"), button(false, "NAAI-A-001")];
    assert_eq!(check_long_press(true, &buttons), None);
    assert_eq!(check_long_press(true, &vec![]), None);
}

#[test]
fn preview_on_click_stages_the_card() {
    let preview = ImagePreview("S001-A-001".to_string());
    assert_eq!(preview_on_click(Some(&preview)), Some("cards/S001-A-001.png".to_string()));
    assert_eq!(preview_on_click(None), None);
}

#[test]
fn check_quit_preview_on_any_press() {
    assert!(check_quit_preview(&vec![false, true, false]));
    assert!(!check_quit_preview(&vec![false, false]));
    assert!(!check_quit_preview(&vec![]));
}
