use tomato::color::{Color, DbColor, NamedColor};
use tomato::input::{parse_inv_input, InputContext, InputModel};
use tomato::events::Key;
use tomato::messages::ProcessMsg;
use tomato::entities::NewInventory;

fn chars(s: &str) -> Vec<char> {
    s.chars().collect()
}

#[test]
fn named_color_round_trip() {
    let all = [
        NamedColor::Reset,
        NamedColor::Black,
        NamedColor::Red,
        NamedColor::Green,
        NamedColor::Yellow,
        NamedColor::Blue,
        NamedColor::Magenta,
        NamedColor::Cyan,
        NamedColor::Gray,
        NamedColor::DarkGray,
        NamedColor::LightRed,
        NamedColor::LightGreen,
        NamedColor::LightYellow,
        NamedColor::LightBlue,
        NamedColor::LightMagenta,
        NamedColor::LightCyan,
        NamedColor::White,
    ];
    for (i, n) in all.iter().enumerate() {
        let c = Color::Named(*n);
        let d = DbColor::encode(c);
        assert_eq!(d.code(), i as i32);
        assert_eq!(d.decode(), c);
    }
}

#[test]
fn indexed_and_rgb_round_trip() {
    let c = Color::Indexed(200);
    let d = DbColor::encode(c);
    assert_eq!(d.code(), 0x0100_0000 + 200);
    assert_eq!(d.decode(), c);

    let c = Color::Rgb(1, 2, 3);
    let d = DbColor::encode(c);
    assert_eq!(d.code(), 0x0200_0000 + 0x1_0000 + 0x200 + 3);
    assert_eq!(d.decode(), c);
}

#[test]
fn unknown_codes_decode_to_reset() {
    assert_eq!(DbColor::from_code(17).decode(), Color::Named(NamedColor::Reset));
    assert_eq!(DbColor::from_code(-5).decode(), Color::Named(NamedColor::Reset));
    assert_eq!(DbColor::from_code(0x7000_0000).decode(), Color::Named(NamedColor::Reset));
    assert_eq!(DbColor::from_code(0).decode(), Color::Named(NamedColor::Reset));
}

#[test]
fn parse_plain_name() {
    let (name, color) = parse_inv_input(&chars("reading"));
    assert_eq!(name, "reading");
    assert_eq!(color, 0);
}

#[test]
fn parse_name_with_color() {
    let (name, color) = parse_inv_input(&chars("books@red"));
    assert_eq!(name, "books");
    assert_eq!(color, 2);
}

#[test]
fn parse_splits_at_last_at_sign() {
    let (name, color) = parse_inv_input(&chars("a@b@blue"));
    assert_eq!(name, "a@b");
    assert_eq!(color, 5);
}

#[test]
fn parse_unknown_color_is_reset() {
    let (name, color) = parse_inv_input(&chars("x@nosuchcolor"));
    assert_eq!(name, "x");
    assert_eq!(color, 0);

    let (name, color) = parse_inv_input(&chars("x@"));
    assert_eq!(name, "x");
    assert_eq!(color, 0);
}

#[test]
fn input_typing_and_backspace() {
    let mut input = InputModel::new();
    input.on_key(Key::Char('h'));
    input.on_key(Key::Char('i'));
    input.on_key(Key::Char('!'));
    input.on_key(Key::Backspace);
    assert_eq!(input.content(), "hi");
    assert!(!input.is_active());
}

#[test]
fn input_submit_builds_create_inventory() {
    let mut input = InputModel::new();
    input.set_context(InputContext::NewInventory(NewInventory::default()));
    for c in "work@green".chars() {
        input.on_key(Key::Char(c));
    }
    let (app_msg, cmd) = input.on_key(Key::Char('\n'));
    assert!(matches!(app_msg, Some(tomato::messages::AppMsg::InputEnd)));
    match cmd {
        Some(ProcessMsg::CreateInventory(inv)) => {
            assert_eq!(inv.name, "work");
            assert_eq!(inv.color, 3);
        }
        _ => panic!("expected a create-inventory command"),
    }
    assert!(!input.is_active());
    assert_eq!(input.content(), "");
}

#[test]
fn input_enter_on_empty_line_keeps_context() {
    let mut input = InputModel::new();
    input.set_context(InputContext::NewInventory(NewInventory::default()));
    let (app_msg, cmd) = input.on_key(Key::Char('\n'));
    assert!(app_msg.is_none());
    assert!(cmd.is_none());
    assert!(input.is_active());
}

#[test]
fn input_escape_cancels() {
    let mut input = InputModel::new();
    input.set_context(InputContext::NewInventory(NewInventory::default()));
    input.on_key(Key::Char('x'));
    let (app_msg, cmd) = input.on_key(Key::Esc);
    assert!(matches!(app_msg, Some(tomato::messages::AppMsg::InputEnd)));
    assert!(cmd.is_none());
    assert!(!input.is_active());
    assert_eq!(input.content(), "x");
}
