use asyncpush::keys::{Event, KeyCode, KeyConfig, KeyEvent, KeyModifiers};
use asyncpush::span::{Span, TextStyle};
use asyncpush::textinput::TextInputComponent;

fn get_text(t: &Span) -> Option<&str> {
    Some(&t.content)
}

fn get_style(t: &Span) -> Option<&TextStyle> {
    Some(&t.style)
}

fn key(code: KeyCode) -> Event {
    Event::Key(KeyEvent::plain(code))
}

fn shown(text: &str) -> TextInputComponent {
    let mut comp = TextInputComponent::new(KeyConfig::default(), "title", "hint");
    comp.set_text(String::from(text));
    comp.show();
    comp
}

#[test]
fn test_smoke() {
    let mut comp = TextInputComponent::new(KeyConfig::default(), "", "");

    comp.set_text(String::from("a\nb"));

    assert_eq!(comp.cursor_position(), 0);

    comp.incr_cursor();
    assert_eq!(comp.cursor_position(), 1);

    comp.decr_cursor();
    assert_eq!(comp.cursor_position(), 0);
}

#[test]
fn text_cursor_initial_position() {
    let mut comp = TextInputComponent::new(KeyConfig::default(), "", "");
    let underlined = TextStyle::text(true, false).underline();

    comp.set_text(String::from("a"));

    let txt = comp.get_draw_text();

    assert_eq!(txt.len(), 1);
    assert_eq!(get_text(&txt[0]), Some("a"));
    assert_eq!(get_style(&txt[0]), Some(&underlined));
}

#[test]
fn test_cursor_second_position() {
    let mut comp = TextInputComponent::new(KeyConfig::default(), "", "");
    let underlined = TextStyle::text(true, false).underline();

    let not_underlined = TextStyle::text(true, false);

    comp.set_text(String::from("a"));
    comp.incr_cursor();

    let txt = comp.get_draw_text();

    assert_eq!(txt.len(), 2);
    assert_eq!(get_text(&txt[0]), Some("a"));
    assert_eq!(get_style(&txt[0]), Some(&not_underlined));
    assert_eq!(get_text(&txt[1]), Some(" "));
    assert_eq!(get_style(&txt[1]), Some(&underlined));
}

#[test]
fn test_visualize_newline() {
    let mut comp = TextInputComponent::new(KeyConfig::default(), "", "");

    let underlined = TextStyle::text(false, false).underline();

    comp.set_text(String::from("a\nb"));
    comp.incr_cursor();

    let txt = comp.get_draw_text();

    assert_eq!(txt.len(), 4);
    assert_eq!(get_text(&txt[0]), Some("a"));
    assert_eq!(get_text(&txt[1]), Some("\u{21b5}"));
    assert_eq!(get_style(&txt[1]), Some(&underlined));
    assert_eq!(get_text(&txt[2]), Some("\n"));
    assert_eq!(get_text(&txt[3]), Some("b"));
}

#[test]
fn test_invisable_newline() {
    let mut comp = TextInputComponent::new(KeyConfig::default(), "", "");

    let underlined = TextStyle::text(true, false).underline();

    comp.set_text(String::from("a\nb"));

    let txt = comp.get_draw_text();

    assert_eq!(txt.len(), 2);
    assert_eq!(get_text(&txt[0]), Some("a"));
    assert_eq!(get_style(&txt[0]), Some(&underlined));
    assert_eq!(get_text(&txt[1]), Some("\nb"));
}

#[test]
fn new_field_is_empty_and_not_shown() {
    let comp = TextInputComponent::new(KeyConfig::default(), "title", "hint");

    assert_eq!(comp.get_text(), "");
    assert_eq!(comp.cursor_position(), 0);
    assert!(!comp.is_visible());
    assert_eq!(comp.next_char_position(), None);
}

#[test]
fn clear_empties_text_and_resets_cursor() {
    let mut comp = shown("abc");
    comp.event(key(KeyCode::End));
    assert_eq!(comp.cursor_position(), 3);

    comp.clear();

    assert_eq!(comp.get_text(), "");
    assert_eq!(comp.cursor_position(), 0);
    assert!(comp.is_visible());
}

#[test]
fn set_text_puts_cursor_at_start() {
    let mut comp = shown("abc");
    comp.event(key(KeyCode::End));

    comp.set_text(String::from("xy"));

    assert_eq!(comp.get_text(), "xy");
    assert_eq!(comp.cursor_position(), 0);
}

#[test]
fn show_and_dismiss_toggle_visibility() {
    let mut comp = TextInputComponent::new(KeyConfig::default(), "", "");

    comp.show();
    assert!(comp.is_visible());

    comp.dismiss();
    assert!(!comp.is_visible());
}

#[test]
fn cursor_steps_over_whole_characters() {
    let mut comp = shown("a\u{e9}\u{20ac}\u{1f600}z");

    assert_eq!(comp.next_char_position(), Some(1));
    comp.incr_cursor();
    assert_eq!(comp.cursor_position(), 1);
    comp.incr_cursor();
    assert_eq!(comp.cursor_position(), 3);
    comp.incr_cursor();
    assert_eq!(comp.cursor_position(), 6);
    comp.incr_cursor();
    assert_eq!(comp.cursor_position(), 10);
    comp.incr_cursor();
    assert_eq!(comp.cursor_position(), 11);
    assert_eq!(comp.next_char_position(), None);
    comp.incr_cursor();
    assert_eq!(comp.cursor_position(), 11);

    comp.decr_cursor();
    assert_eq!(comp.cursor_position(), 10);
    comp.decr_cursor();
    assert_eq!(comp.cursor_position(), 6);
    comp.decr_cursor();
    assert_eq!(comp.cursor_position(), 3);
    comp.decr_cursor();
    assert_eq!(comp.cursor_position(), 1);
    comp.decr_cursor();
    assert_eq!(comp.cursor_position(), 0);
    comp.decr_cursor();
    assert_eq!(comp.cursor_position(), 0);
}

#[test]
fn typed_characters_go_in_at_the_cursor() {
    let mut comp = shown("ac");
    comp.event(key(KeyCode::Right));

    assert!(comp.event(key(KeyCode::Char('\u{e9}'))));

    assert_eq!(comp.get_text(), "a\u{e9}c");
    assert_eq!(comp.cursor_position(), 3);

    assert!(comp.event(key(KeyCode::Char('b'))));

    assert_eq!(comp.get_text(), "a\u{e9}bc");
    assert_eq!(comp.cursor_position(), 4);
}

#[test]
fn insert_moves_cursor_by_the_width_of_the_character() {
    let mut comp = shown("");

    comp.insert('\u{1f600}');

    assert_eq!(comp.get_text(), "\u{1f600}");
    assert_eq!(comp.cursor_position(), 4);
}

#[test]
fn control_characters_are_not_text() {
    let mut comp = shown("ab");
    let ctrl_c = Event::Key(KeyEvent {
        code: KeyCode::Char('c'),
        modifiers: KeyModifiers { shift: false, control: true, alt: false },
    });

    assert!(!comp.event(ctrl_c));

    assert_eq!(comp.get_text(), "ab");
    assert_eq!(comp.cursor_position(), 0);
}

#[test]
fn shifted_characters_are_text() {
    let mut comp = shown("");
    let shift_a = Event::Key(KeyEvent {
        code: KeyCode::Char('A'),
        modifiers: KeyModifiers { shift: true, control: false, alt: false },
    });

    assert!(comp.event(shift_a));

    assert_eq!(comp.get_text(), "A");
}

#[test]
fn delete_removes_the_character_under_the_cursor() {
    let mut comp = shown("a\u{20ac}b");
    comp.event(key(KeyCode::Right));

    assert!(comp.event(key(KeyCode::Delete)));

    assert_eq!(comp.get_text(), "ab");
    assert_eq!(comp.cursor_position(), 1);
}

#[test]
fn delete_at_the_end_changes_nothing() {
    let mut comp = shown("ab");
    comp.event(key(KeyCode::End));

    assert!(comp.event(key(KeyCode::Delete)));

    assert_eq!(comp.get_text(), "ab");
    assert_eq!(comp.cursor_position(), 2);
}

#[test]
fn backspace_removes_the_character_before_the_cursor() {
    let mut comp = shown("a\u{20ac}b");
    comp.event(key(KeyCode::Right));
    comp.event(key(KeyCode::Right));
    assert_eq!(comp.cursor_position(), 4);

    assert!(comp.event(key(KeyCode::Backspace)));

    assert_eq!(comp.get_text(), "ab");
    assert_eq!(comp.cursor_position(), 1);
}

#[test]
fn backspace_at_the_start_changes_nothing() {
    let mut comp = shown("ab");

    assert!(comp.event(key(KeyCode::Backspace)));

    assert_eq!(comp.get_text(), "ab");
    assert_eq!(comp.cursor_position(), 0);
}

#[test]
fn backspace_undoes_typing() {
    let mut comp = shown("a\u{e9}b");
    comp.event(key(KeyCode::Right));

    comp.insert('\u{20ac}');
    comp.backspace();

    assert_eq!(comp.get_text(), "a\u{e9}b");
    assert_eq!(comp.cursor_position(), 1);
}

#[test]
fn home_and_end_jump() {
    let mut comp = shown("h\u{e9}llo");

    assert!(comp.event(key(KeyCode::End)));
    assert_eq!(comp.cursor_position(), 6);

    assert!(comp.event(key(KeyCode::Home)));
    assert_eq!(comp.cursor_position(), 0);
}

#[test]
fn left_and_right_keys_move_the_cursor() {
    let mut comp = shown("\u{e9}a");

    assert!(comp.event(key(KeyCode::Right)));
    assert_eq!(comp.cursor_position(), 2);
    assert!(comp.event(key(KeyCode::Left)));
    assert_eq!(comp.cursor_position(), 0);
    assert!(comp.event(key(KeyCode::Left)));
    assert_eq!(comp.cursor_position(), 0);
}

#[test]
fn exit_key_closes_the_popup() {
    let mut comp = shown("ab");

    assert!(comp.event(key(KeyCode::Esc)));

    assert!(!comp.is_visible());
    assert_eq!(comp.get_text(), "ab");
}

#[test]
fn exit_key_wins_over_typing() {
    let config = KeyConfig { exit_popup: KeyEvent::plain(KeyCode::Char('q')) };
    let mut comp = TextInputComponent::new(config, "", "");
    comp.show();

    assert!(comp.event(key(KeyCode::Char('q'))));

    assert!(!comp.is_visible());
    assert_eq!(comp.get_text(), "");
}

#[test]
fn field_that_is_not_shown_ignores_keys() {
    let mut comp = TextInputComponent::new(KeyConfig::default(), "", "");
    comp.set_text(String::from("ab"));

    assert!(!comp.event(key(KeyCode::Char('x'))));
    assert!(!comp.event(key(KeyCode::End)));

    assert_eq!(comp.get_text(), "ab");
    assert_eq!(comp.cursor_position(), 0);
}

#[test]
fn other_keys_and_events_are_not_consumed() {
    let mut comp = shown("ab");

    assert!(!comp.event(key(KeyCode::Enter)));
    assert!(!comp.event(key(KeyCode::Up)));
    assert!(!comp.event(key(KeyCode::F(1))));
    assert!(!comp.event(Event::Mouse));
    assert!(!comp.event(Event::Resize(80, 24)));

    assert_eq!(comp.get_text(), "ab");
    assert_eq!(comp.cursor_position(), 0);
    assert!(comp.is_visible());
}

#[test]
fn set_title_keeps_the_text() {
    let mut comp = shown("ab");

    comp.set_title(String::from("other"));

    assert_eq!(comp.get_text(), "ab");
}

#[test]
fn popup_shows_the_default_message_while_empty() {
    let comp = TextInputComponent::new(KeyConfig::default(), "title", "type here");

    let txt = comp.popup_text();

    assert_eq!(txt.len(), 1);
    assert_eq!(get_text(&txt[0]), Some("type here"));
    assert_eq!(get_style(&txt[0]), Some(&TextStyle::text(false, false)));
}

#[test]
fn popup_shows_the_text_once_there_is_some() {
    let comp = shown("a");

    let txt = comp.popup_text();

    assert_eq!(txt.len(), 1);
    assert_eq!(get_text(&txt[0]), Some("a"));
    assert_eq!(get_style(&txt[0]), Some(&TextStyle::text(true, false).underline()));
}

#[test]
fn draw_text_splits_around_a_wide_character() {
    let mut comp = shown("a\u{20ac}b");
    comp.incr_cursor();

    let txt = comp.get_draw_text();

    assert_eq!(txt.len(), 3);
    assert_eq!(get_text(&txt[0]), Some("a"));
    assert_eq!(get_text(&txt[1]), Some("\u{20ac}"));
    assert_eq!(get_style(&txt[1]), Some(&TextStyle::text(true, false).underline()));
    assert_eq!(get_text(&txt[2]), Some("b"));
    assert_eq!(get_style(&txt[2]), Some(&TextStyle::text(true, false)));
}

#[test]
fn draw_text_of_the_last_character_has_no_tail() {
    let mut comp = shown("ab");
    comp.incr_cursor();

    let txt = comp.get_draw_text();

    assert_eq!(txt.len(), 2);
    assert_eq!(get_text(&txt[0]), Some("a"));
    assert_eq!(get_text(&txt[1]), Some("b"));
}
