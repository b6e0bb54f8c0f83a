//! A one-field text entry with a cursor.
//!
//! The text is a `String`; the cursor is a byte offset into it that always
//! stands where a character begins, or at the end. Keys move the cursor by
//! whole characters and edit the text at the cursor.

use vstd::prelude::*;
use vstd::utf8::*;
use vstd::string::*;
use crate::keys::{Event, KeyCode, KeyConfig, KeyEvent};
use crate::span::{spans_view, Span, SpanView, TextStyle};
use crate::text::{
    byte_len, bytes_from, bytes_with_insert, bytes_without, char_width_at, chars_before,
    encloses_one_char, insert_char, is_cursor_position, lemma_char_width,
    lemma_insert_is_char_insert, lemma_insert_positions, lemma_next_position_unique,
    lemma_previous_position, lemma_previous_position_unique, lemma_remove_is_char_remove,
    lemma_remove_positions, lemma_steps_cancel, lemma_without_positions, next_position,
    previous_position, remove_char,
};

verus! {

/// The component as its user sees it.
pub struct InputView {
    /// The text entered so far.
    pub text: Seq<char>,
    /// The cursor, as a byte offset into the UTF-8 encoding of the text.
    pub cursor: int,
    /// Whether the component is shown.
    pub visible: bool,
    /// The title of the popup.
    pub title: Seq<char>,
    /// What is shown while the text is empty.
    pub default_msg: Seq<char>,
    /// The keys the component reacts to.
    pub key_config: KeyConfig,
}

impl InputView {
    /// The UTF-8 encoding of the text.
    pub open spec fn bytes(self) -> Seq<u8> {
        encode_utf8(self.text)
    }

    /// The cursor stands where a character begins, or at the end.
    pub open spec fn wf(self) -> bool {
        is_cursor_position(self.bytes(), self.cursor)
    }

    /// The number of characters before the cursor.
    pub open spec fn char_index(self) -> int {
        chars_before(self.bytes(), self.cursor)
    }

    /// With `text` in place of the text, the cursor at the start.
    pub open spec fn with_text(self, text: Seq<char>) -> InputView {
        InputView { text, cursor: 0, ..self }
    }

    /// With the cursor behind the character it stood on; unchanged at the
    /// end.
    pub open spec fn moved_right(self) -> InputView {
        InputView { cursor: next_position(self.bytes(), self.cursor), ..self }
    }

    /// With the cursor on the character before it; unchanged at the start.
    pub open spec fn moved_left(self) -> InputView {
        InputView { cursor: previous_position(self.bytes(), self.cursor), ..self }
    }

    /// With `ch` put in at the cursor, and the cursor behind it.
    pub open spec fn typed(self, ch: char) -> InputView {
        InputView {
            text: decode_utf8(bytes_with_insert(self.bytes(), self.cursor, ch)),
            cursor: self.cursor + encode_scalar(ch as u32).len(),
            ..self
        }
    }

    /// Without the character under the cursor; unchanged at the end.
    pub open spec fn deleted(self) -> InputView {
        if self.cursor < self.bytes().len() {
            InputView {
                text: decode_utf8(
                    bytes_without(
                        self.bytes(),
                        self.cursor,
                        char_width_at(self.bytes(), self.cursor),
                    ),
                ),
                ..self
            }
        } else {
            self
        }
    }

    /// Without the character before the cursor, the cursor where that
    /// character was; unchanged at the start.
    pub open spec fn backspaced(self) -> InputView {
        if self.cursor > 0 {
            self.moved_left().deleted()
        } else {
            self
        }
    }

    /// Whether the field takes `key` for itself while it is shown.
    pub open spec fn takes_key(self, key: KeyEvent) -> bool {
        key == self.key_config.exit_popup || match key.code {
            KeyCode::Char(_) => !key.modifiers.control,
            KeyCode::Delete
            | KeyCode::Backspace
            | KeyCode::Left
            | KeyCode::Right
            | KeyCode::Home
            | KeyCode::End => true,
            _ => false,
        }
    }

    /// Whether the field consumes `ev`: a key that it takes, while it is
    /// shown.
    pub open spec fn consumes(self, ev: Event) -> bool {
        self.visible && (ev matches Event::Key(key) && self.takes_key(key))
    }

    /// The field after `key`, while it is shown. The key that closes a
    /// popup goes first; a character typed with control held is not text.
    pub open spec fn after_key(self, key: KeyEvent) -> InputView {
        if key == self.key_config.exit_popup {
            InputView { visible: false, ..self }
        } else {
            match key.code {
                KeyCode::Char(ch) => if key.modifiers.control {
                    self
                } else {
                    self.typed(ch)
                },
                KeyCode::Delete => self.deleted(),
                KeyCode::Backspace => self.backspaced(),
                KeyCode::Left => self.moved_left(),
                KeyCode::Right => self.moved_right(),
                KeyCode::Home => InputView { cursor: 0, ..self },
                KeyCode::End => InputView { cursor: self.bytes().len() as int, ..self },
                _ => self,
            }
        }
    }

    /// The text as it is drawn while it is not empty: what stands before
    /// the cursor, the character under the cursor underlined (a space at
    /// the end of the text), and what follows it. A line feed under the
    /// cursor is announced by a return sign, which is disabled text.
    pub open spec fn draw_text(self) -> Seq<SpanView> {
        let bytes = self.bytes();
        let plain = TextStyle::spec_text(true, false);
        let before = if self.cursor > 0 {
            seq![SpanView { content: decode_utf8(bytes.subrange(0, self.cursor)), style: plain }]
        } else {
            seq![]
        };
        if self.cursor >= bytes.len() {
            before.push(SpanView { content: seq![' '], style: plain.spec_underline() })
        } else {
            let next = next_position(bytes, self.cursor);
            let sign = if bytes[self.cursor] == 0x0Au8 {
                seq![
                    SpanView {
                        content: seq!['\u{21b5}'],
                        style: TextStyle::spec_text(false, false).spec_underline(),
                    },
                ]
            } else {
                seq![]
            };
            let under = SpanView {
                content: decode_utf8(bytes.subrange(self.cursor, next)),
                style: plain.spec_underline(),
            };
            let after = if next < bytes.len() {
                seq![SpanView { content: decode_utf8(bytes_from(bytes, next)), style: plain }]
            } else {
                seq![]
            };
            before + sign + seq![under] + after
        }
    }

    /// What the popup shows: the default message, as disabled text, while
    /// the text is empty, else the text with its cursor.
    pub open spec fn popup_text(self) -> Seq<SpanView> {
        if self.text.len() == 0 {
            seq![SpanView { content: self.default_msg, style: TextStyle::spec_text(false, false) }]
        } else {
            self.draw_text()
        }
    }

    /// The field after `ev`. A field that is not shown ignores every event.
    pub open spec fn handled(self, ev: Event) -> InputView {
        match ev {
            Event::Key(key) => if self.visible {
                self.after_key(key)
            } else {
                self
            },
            _ => self,
        }
    }
}

/// A typed character goes in among the characters where the cursor
/// stands, and the cursor stands one character further.
pub proof fn lemma_typed(field: InputView, ch: char)
    requires
        field.wf(),
    ensures
        field.typed(ch).wf(),
        field.typed(ch).text == field.text.insert(field.char_index(), ch),
        field.typed(ch).char_index() == field.char_index() + 1,
{
    let bytes = field.bytes();
    let after = bytes_with_insert(bytes, field.cursor, ch);
    encode_utf8_valid_utf8(field.text);
    lemma_insert_positions(bytes, field.cursor, ch);
    lemma_insert_is_char_insert(field.text, field.cursor, ch);
    decode_utf8_encode_utf8(after);
}

/// Deleting takes out the character under the cursor, and the cursor
/// stays.
pub proof fn lemma_deleted(field: InputView)
    requires
        field.wf(),
        field.cursor < field.bytes().len(),
    ensures
        field.deleted().wf(),
        0 <= field.char_index() < field.text.len(),
        field.deleted().text == field.text.remove(field.char_index()),
        field.deleted().char_index() == field.char_index(),
{
    let bytes = field.bytes();
    encode_utf8_valid_utf8(field.text);
    lemma_remove_is_char_remove(field.text, field.cursor);
    lemma_without_positions(bytes, field.cursor);
    decode_utf8_encode_utf8(bytes_without(bytes, field.cursor, char_width_at(bytes, field.cursor)));
}

/// A step of the cursor is a step of one character.
pub proof fn lemma_moved(field: InputView)
    requires
        field.wf(),
    ensures
        field.moved_right().wf(),
        field.moved_left().wf(),
        field.moved_right().char_index() == if field.cursor < field.bytes().len() {
            field.char_index() + 1
        } else {
            field.char_index()
        },
        field.moved_left().char_index() == if field.cursor > 0 {
            field.char_index() - 1
        } else {
            field.char_index()
        },
{
    let bytes = field.bytes();
    encode_utf8_valid_utf8(field.text);
    if field.cursor < bytes.len() {
        lemma_char_width(bytes, field.cursor);
        lemma_remove_is_char_remove(field.text, field.cursor);
    }
    if field.cursor > 0 {
        lemma_previous_position(bytes, field.cursor);
        lemma_steps_cancel(bytes, field.cursor);
        lemma_remove_is_char_remove(field.text, previous_position(bytes, field.cursor));
    }
}

/// Backspace undoes what typing a character did.
pub proof fn lemma_backspace_undoes_typing(field: InputView, ch: char)
    requires
        field.wf(),
    ensures
        field.typed(ch).backspaced() == field,
{
    let bytes = field.bytes();
    let encoded = encode_scalar(ch as u32);
    let typed = field.typed(ch);
    let after = bytes_with_insert(bytes, field.cursor, ch);
    encode_utf8_valid_utf8(field.text);
    encode_utf8_decode_utf8(field.text);
    lemma_insert_positions(bytes, field.cursor, ch);
    decode_utf8_encode_utf8(after);
    assert(typed.bytes() == after);
    lemma_previous_position(after, typed.cursor);
    lemma_previous_position_unique(
        after,
        field.cursor,
        previous_position(after, typed.cursor),
        typed.cursor,
    );
    lemma_char_width(after, field.cursor);
    lemma_next_position_unique(
        after,
        field.cursor,
        field.cursor + char_width_at(after, field.cursor),
        typed.cursor,
    );
    assert(bytes_without(after, field.cursor, encoded.len() as int) =~= bytes);
}

/// Whatever the event, the cursor of a well-formed field stays where a
/// character begins or at the end.
pub proof fn lemma_handled_wf(field: InputView, ev: Event)
    requires
        field.wf(),
    ensures
        field.handled(ev).wf(),
{
    let bytes = field.bytes();
    encode_utf8_valid_utf8(field.text);
    is_char_boundary_start_end_of_seq(bytes);
    lemma_moved(field);
    if field.cursor < bytes.len() {
        lemma_deleted(field);
    }
    if field.cursor > 0 {
        let left = field.moved_left();
        lemma_previous_position(bytes, field.cursor);
        lemma_deleted(left);
    }
    match ev {
        Event::Key(key) => match key.code {
            KeyCode::Char(ch) => {
                lemma_typed(field, ch);
            },
            _ => {},
        },
        _ => {},
    }
}

/// A text entry field.
pub struct TextInputComponent {
    title: String,
    default_msg: String,
    msg: String,
    visible: bool,
    key_config: KeyConfig,
    cursor_position: usize,
}

impl View for TextInputComponent {
    type V = InputView;

    closed spec fn view(&self) -> InputView {
        InputView {
            text: self.msg@,
            cursor: self.cursor_position as int,
            visible: self.visible,
            title: self.title@,
            default_msg: self.default_msg@,
            key_config: self.key_config,
        }
    }
}

impl TextInputComponent {
    /// The cursor stands where a character begins, or at the end.
    pub open spec fn wf(&self) -> bool {
        self@.wf()
    }

    /// A hidden, empty field.
    pub fn new(key_config: KeyConfig, title: &str, default_msg: &str) -> (res: Self)
        ensures
            res@ == (InputView {
                text: Seq::<char>::empty(),
                cursor: 0,
                visible: false,
                title: title@,
                default_msg: default_msg@,
                key_config,
            }),
            res.wf(),
    {
        let res = TextInputComponent {
            msg: String::new(),
            visible: false,
            key_config,
            title: title.to_owned(),
            default_msg: default_msg.to_owned(),
            cursor_position: 0,
        };
        proof {
            encode_utf8_valid_utf8(res.msg@);
        }
        res
    }

    /// Empties the text.
    pub fn clear(&mut self)
        ensures
            final(self)@ == old(self)@.with_text(Seq::<char>::empty()),
            final(self).wf(),
    {
        self.msg = String::new();
        self.cursor_position = 0;
        proof {
            encode_utf8_valid_utf8(self.msg@);
        }
    }

    /// The text.
    pub fn get_text(&self) -> (res: &String)
        ensures
            res@ == self@.text,
    {
        &self.msg
    }

    /// The title of the popup.
    pub fn title(&self) -> (res: &str)
        ensures
            res@ == self@.title,
    {
        self.title.as_str()
    }

    /// The cursor, as a byte offset into the text.
    pub fn cursor_position(&self) -> (res: usize)
        ensures
            res == self@.cursor,
    {
        self.cursor_position
    }

    /// Replaces the text and puts the cursor at its start.
    pub fn set_text(&mut self, msg: String)
        ensures
            final(self)@ == old(self)@.with_text(msg@),
            final(self).wf(),
    {
        self.msg = msg;
        self.cursor_position = 0;
        proof {
            encode_utf8_valid_utf8(self.msg@);
        }
    }

    /// Replaces the title.
    pub fn set_title(&mut self, t: String)
        ensures
            final(self)@ == (InputView { title: t@, ..old(self)@ }),
    {
        self.title = t;
    }

    /// Whether the field is shown.
    pub fn is_visible(&self) -> (res: bool)
        ensures
            res == self@.visible,
    {
        self.visible
    }

    /// Takes the field off the screen.
    pub fn dismiss(&mut self)
        ensures
            final(self)@ == (InputView { visible: false, ..old(self)@ }),
    {
        self.visible = false;
    }

    /// Shows the field.
    pub fn show(&mut self)
        ensures
            final(self)@ == (InputView { visible: true, ..old(self)@ }),
    {
        self.visible = true;
    }

    /// The position behind the character under the cursor, `None` where
    /// the cursor is at the end.
    pub fn next_char_position(&self) -> (res: Option<usize>)
        requires
            self.wf(),
        ensures
            res is None <==> self@.cursor == self@.bytes().len(),
            res matches Some(pos) ==> pos == next_position(self@.bytes(), self@.cursor)
                && encloses_one_char(self@.bytes(), self@.cursor, pos as int),
    {
        let text = self.msg.as_str();
        let len = byte_len(text);
        if self.cursor_position >= len {
            return None;
        }
        let ghost bytes = self@.bytes();
        proof {
            encode_utf8_valid_utf8(self.msg@);
        }
        let mut index: usize = self.cursor_position + 1;
        while index < len && !text.is_char_boundary(index)
            invariant
                text.spec_bytes() == bytes,
                valid_utf8(bytes),
                len == bytes.len(),
                self.cursor_position < index <= len,
                forall|i: int|
                    self.cursor_position < i < index ==> !#[trigger] is_char_boundary(bytes, i),
            decreases len - index,
        {
            index += 1;
        }
        proof {
            if index == len {
                is_char_boundary_start_end_of_seq(bytes);
            }
            lemma_char_width(bytes, self.cursor_position as int);
            lemma_next_position_unique(
                bytes,
                self.cursor_position as int,
                index as int,
                next_position(bytes, self.cursor_position as int),
            );
        }
        Some(index)
    }

    /// Moves the cursor right by one character; at the end it stays.
    pub fn incr_cursor(&mut self)
        requires
            old(self).wf(),
        ensures
            final(self)@ == old(self)@.moved_right(),
            final(self).wf(),
    {
        if let Some(pos) = self.next_char_position() {
            self.cursor_position = pos;
        }
    }

    /// Moves the cursor left by one character; at the start it stays.
    pub fn decr_cursor(&mut self)
        requires
            old(self).wf(),
        ensures
            final(self)@ == old(self)@.moved_left(),
            final(self).wf(),
            old(self)@.cursor > 0 ==> encloses_one_char(
                old(self)@.bytes(),
                final(self)@.cursor,
                old(self)@.cursor,
            ),
    {
        if self.cursor_position == 0 {
            return ;
        }
        let text = self.msg.as_str();
        let ghost bytes = self@.bytes();
        proof {
            encode_utf8_valid_utf8(self.msg@);
        }
        let mut index: usize = self.cursor_position - 1;
        while index > 0 && !text.is_char_boundary(index)
            invariant
                text.spec_bytes() == bytes,
                valid_utf8(bytes),
                index < self.cursor_position <= bytes.len(),
                forall|i: int|
                    index < i < self.cursor_position ==> !#[trigger] is_char_boundary(bytes, i),
            decreases index,
        {
            index -= 1;
        }
        proof {
            assert(is_char_boundary(bytes, index as int));
            assert(encloses_one_char(bytes, index as int, self.cursor_position as int));
            lemma_previous_position(bytes, self.cursor_position as int);
            lemma_previous_position_unique(
                bytes,
                index as int,
                previous_position(bytes, self.cursor_position as int),
                self.cursor_position as int,
            );
        }
        self.cursor_position = index;
    }

    /// Puts `ch` in at the cursor and moves the cursor behind it.
    pub fn insert(&mut self, ch: char)
        requires
            old(self).wf(),
        ensures
            final(self)@ == old(self)@.typed(ch),
            final(self).wf(),
    {
        let ghost before = self@.bytes();
        let ghost cursor = self.cursor_position as int;
        proof {
            encode_utf8_valid_utf8(self.msg@);
            lemma_insert_positions(before, cursor, ch);
        }
        insert_char(&mut self.msg, self.cursor_position, ch);
        proof {
            let after = self@.bytes();
            encode_utf8_decode_utf8(self.msg@);
            lemma_char_width(after, cursor);
            lemma_next_position_unique(
                after,
                cursor,
                next_position(after, cursor),
                cursor + encode_scalar(ch as u32).len(),
            );
        }
        self.incr_cursor();
    }

    /// Removes the character under the cursor; at the end nothing changes.
    pub fn delete(&mut self)
        requires
            old(self).wf(),
        ensures
            final(self)@ == old(self)@.deleted(),
            final(self).wf(),
    {
        if self.cursor_position < byte_len(self.msg.as_str()) {
            let ghost before = self@.bytes();
            proof {
                encode_utf8_valid_utf8(self.msg@);
            }
            let removed = remove_char(&mut self.msg, self.cursor_position);
            proof {
                encode_utf8_decode_utf8(self.msg@);
                lemma_remove_positions(
                    before,
                    self.cursor_position as int,
                    removed,
                    self@.bytes(),
                );
            }
        }
    }

    /// Removes the character before the cursor and moves the cursor to
    /// where it was; at the start nothing changes.
    pub fn backspace(&mut self)
        requires
            old(self).wf(),
        ensures
            final(self)@ == old(self)@.backspaced(),
            final(self).wf(),
    {
        if self.cursor_position > 0 {
            self.decr_cursor();
            self.delete();
        }
    }

    /// Handles `ev` and tells whether the field consumed it.
    pub fn event(&mut self, ev: Event) -> (consumed: bool)
        requires
            old(self).wf(),
        ensures
            consumed == old(self)@.consumes(ev),
            final(self)@ == old(self)@.handled(ev),
            final(self).wf(),
    {
        if !self.visible {
            return false;
        }
        let key = match ev {
            Event::Key(key) => key,
            _ => {
                return false;
            },
        };
        if key == self.key_config.exit_popup {
            self.dismiss();
            return true;
        }
        match key.code {
            KeyCode::Char(ch) => {
                if key.modifiers.control {
                    return false;
                }
                self.insert(ch);
                true
            },
            KeyCode::Delete => {
                self.delete();
                true
            },
            KeyCode::Backspace => {
                self.backspace();
                true
            },
            KeyCode::Left => {
                self.decr_cursor();
                true
            },
            KeyCode::Right => {
                self.incr_cursor();
                true
            },
            KeyCode::Home => {
                self.cursor_position = 0;
                proof {
                    encode_utf8_valid_utf8(self.msg@);
                }
                true
            },
            KeyCode::End => {
                self.cursor_position = byte_len(self.msg.as_str());
                proof {
                    encode_utf8_valid_utf8(self.msg@);
                    is_char_boundary_start_end_of_seq(self@.bytes());
                }
                true
            },
            _ => false,
        }
    }

    /// The text with its cursor, in styled pieces.
    pub fn get_draw_text(&self) -> (txt: Vec<Span>)
        requires
            self.wf(),
        ensures
            spans_view(txt@) == self@.draw_text(),
    {
        let style = TextStyle::text(true, false);
        let text = self.msg.as_str();
        let ghost bytes = self@.bytes();
        let ghost cursor = self.cursor_position as int;
        proof {
            encode_utf8_valid_utf8(self.msg@);
        }
        let mut txt: Vec<Span> = Vec::new();
        assert(spans_view(txt@) =~= Seq::<SpanView>::empty());
        let (head, rest) = text.split_at(self.cursor_position);
        proof {
            encode_utf8_decode_utf8(head@);
            encode_utf8_decode_utf8(rest@);
        }
        if self.cursor_position > 0 {
            txt.push(Span::styled(head, style));
            assert(spans_view(txt@) =~= seq![
                SpanView { content: decode_utf8(bytes.subrange(0, cursor)), style },
            ]);
        }
        let ghost before = spans_view(txt@);
        match self.next_char_position() {
            None => {
                proof {
                    reveal_strlit(" ");
                }
                assert(" "@ =~= seq![' ']);
                txt.push(Span::styled(" ", style.underline()));
                assert(spans_view(txt@) =~= before.push(
                    SpanView { content: seq![' '], style: style.spec_underline() },
                ));
            },
            Some(pos) => {
                proof {
                    lemma_char_width(bytes, cursor);
                    encode_utf8_valid_utf8(rest@);
                    assert(rest.spec_bytes()[0] == bytes[cursor]);
                    assert(is_char_boundary(pop_first_scalar(rest.spec_bytes()), 0));
                }
                let (under, tail) = rest.split_at(pos - self.cursor_position);
                proof {
                    encode_utf8_decode_utf8(under@);
                    encode_utf8_decode_utf8(tail@);
                    assert(under.spec_bytes() =~= bytes.subrange(cursor, pos as int));
                    assert(tail.spec_bytes() =~= bytes_from(bytes, pos as int));
                }
                if text.as_bytes()[self.cursor_position] == 0x0Au8 {
                    proof {
                        reveal_strlit("\u{21b5}");
                    }
                    assert("\u{21b5}"@ =~= seq!['\u{21b5}']);
                    txt.push(Span::styled("\u{21b5}", TextStyle::text(false, false).underline()));
                }
                let ghost with_sign = spans_view(txt@);
                assert(with_sign =~= before + if bytes[cursor] == 0x0Au8 {
                    seq![
                        SpanView {
                            content: seq!['\u{21b5}'],
                            style: TextStyle::spec_text(false, false).spec_underline(),
                        },
                    ]
                } else {
                    seq![]
                });
                txt.push(Span::styled(under, style.underline()));
                let ghost with_under = spans_view(txt@);
                assert(with_under =~= with_sign + seq![
                    SpanView {
                        content: decode_utf8(bytes.subrange(cursor, pos as int)),
                        style: style.spec_underline(),
                    },
                ]);
                if pos < byte_len(text) {
                    txt.push(Span::styled(tail, style));
                    assert(spans_view(txt@) =~= with_under + seq![
                        SpanView { content: decode_utf8(bytes_from(bytes, pos as int)), style },
                    ]);
                } else {
                    assert(spans_view(txt@) =~= with_under + Seq::<SpanView>::empty());
                }
            },
        }
        txt
    }

    /// What the popup shows.
    pub fn popup_text(&self) -> (txt: Vec<Span>)
        requires
            self.wf(),
        ensures
            spans_view(txt@) == self@.popup_text(),
    {
        if self.msg.as_str().is_empty() {
            let mut txt: Vec<Span> = Vec::new();
            txt.push(Span::styled(self.default_msg.as_str(), TextStyle::text(false, false)));
            assert(spans_view(txt@) =~= seq![
                SpanView {
                    content: self.default_msg@,
                    style: TextStyle::spec_text(false, false),
                },
            ]);
            txt
        } else {
            self.get_draw_text()
        }
    }
}

} // verus!
