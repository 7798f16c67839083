use care2d::event::{end_frame, handle_event, init, Event, EventData};
use care2d::keyboard::{self, Key, KeyboardState};
use care2d::math::Vec2;
use care2d::mouse::{self, button_code, MouseButton, MouseState};
use care2d::texture::Texture;
use care2d::window::{open, open_with_settings, WindowSettings};

#[test]
fn key_from_character() {
    assert_eq!(Key::from_char('A'), Key::Char('a'));
    assert_eq!(Key::from_char('z'), Key::Char('z'));
    assert_eq!(Key::from_char(' '), Key::Space);
    assert_eq!(Key::from_char_lowered('Q', 'q'), Key::Char('q'));
}

#[test]
fn key_from_name() {
    assert_eq!(Key::from_name("Up"), Key::Up);
    assert_eq!(Key::from_name("ENTER"), Key::Enter);
    assert_eq!(Key::from_name("meta"), Key::Meta);
    assert_eq!(Key::from_name("X"), Key::Char('x'));
    assert_eq!(Key::from_name("nonsense"), Key::Unknown);
    assert_eq!(Key::from_lowered_name("backspace"), Key::Backspace);
    assert_eq!(Key::from_lowered_name("Backspace"), Key::Unknown);
}

#[test]
fn keyboard_press_and_release() {
    let mut k = KeyboardState::empty();
    keyboard::process_key_event(&mut k, Key::Up, true);
    keyboard::process_key_event(&mut k, Key::Up, true);
    assert!(keyboard::is_down(&k, Key::Up));
    assert!(keyboard::is_pressed(&k, Key::Up));
    assert_eq!(k.held.len(), 1);
    keyboard::reset(&mut k);
    assert!(!keyboard::is_pressed(&k, Key::Up));
    assert!(keyboard::is_down(&k, Key::Up));
    keyboard::process_key_event(&mut k, Key::Up, false);
    assert!(!keyboard::is_down(&k, Key::Up));
    assert!(keyboard::is_released(&k, Key::Up));
}

#[test]
fn mouse_buttons_and_position() {
    let mut m = MouseState::empty();
    assert_eq!(mouse::get_position(&m), Vec2::new(0, 0));
    mouse::process_mouse_moved_event(&mut m, Vec2::new(12, 34));
    assert_eq!(mouse::get_position(&m), Vec2::new(12, 34));
    mouse::process_mouse_click_event(&mut m, 1, true);
    assert!(mouse::is_down(&m, 1) && mouse::is_pressed(&m, 1));
    assert!(!mouse::is_down(&m, 2));
    mouse::reset(&mut m);
    assert!(!mouse::is_pressed(&m, 1));
    mouse::process_mouse_click_event(&mut m, 1, false);
    assert!(!mouse::is_down(&m, 1) && mouse::is_released(&m, 1));
}

#[test]
fn events_reach_input_state() {
    let mut c = init(4, Texture::new(1, 8, 8));
    handle_event(&mut c, &Event { timestamp: 0, data: EventData::KeyEvent { key: Key::Char('w'), pressed: true } });
    handle_event(&mut c, &Event { timestamp: 1, data: EventData::MouseMoved { position: Vec2::new(3, 4) } });
    handle_event(&mut c, &Event { timestamp: 2, data: EventData::MouseClick { button: 2, pressed: true } });
    handle_event(&mut c, &Event { timestamp: 3, data: EventData::TextEvent { text: "w".to_string() } });
    handle_event(&mut c, &Event { timestamp: 4, data: EventData::FocusChange { focused: false } });
    assert!(keyboard::is_pressed(&c.keyboard, Key::Char('w')));
    assert_eq!(mouse::get_position(&c.mouse), Vec2::new(3, 4));
    assert!(mouse::is_pressed(&c.mouse, 2));
    care2d::api::rectangle(&mut c.render, Vec2::new(0, 0), Vec2::new(1, 1));
    let calls = end_frame(&mut c, &vec![]);
    assert_eq!(calls[0].vertices.len(), 4);
    assert!(c.render.commands.is_empty());
    assert!(!keyboard::is_pressed(&c.keyboard, Key::Char('w')));
    assert!(keyboard::is_down(&c.keyboard, Key::Char('w')));
    assert!(mouse::is_down(&c.mouse, 2) && !mouse::is_pressed(&c.mouse, 2));
}

#[test]
fn windows_are_queued_in_order() {
    let mut pending = Vec::new();
    open(&mut pending, "first");
    let mut s = WindowSettings::default();
    s.resizable = true;
    open_with_settings(&mut pending, s);
    assert_eq!(pending.len(), 2);
    assert_eq!(pending[0].name, "first");
    assert_eq!(pending[0].size, Some(Vec2::new(800, 600)));
    assert!(!pending[0].resizable);
    assert!(pending[0].pos.is_none());
    assert_eq!(pending[1].name, "CARE game");
    assert!(pending[1].resizable);
}

#[test]
fn mouse_button_codes() {
    assert_eq!(button_code(MouseButton::Left), 1);
    assert_eq!(button_code(MouseButton::Forward), 5);
    assert_eq!(button_code(MouseButton::Other(0)), 6);
    assert_eq!(button_code(MouseButton::Other(10)), 16);
}

#[test]
fn keys_convert_from_chars_and_names() {
    assert_eq!(Key::from('B'), Key::Char('b'));
    assert_eq!(Key::from(' '), Key::Space);
    assert_eq!(Key::from("Escape"), Key::Escape);
    assert_eq!(Key::from("q"), Key::Char('q'));
    let k: Key = "DELETE".into();
    assert_eq!(k, Key::Delete);
}
