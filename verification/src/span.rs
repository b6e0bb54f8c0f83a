//! Pieces of styled text, as the field hands them to whatever draws it.

use vstd::prelude::*;
use vstd::string::*;

verus! {

/// How a piece of text is to look. `enabled` and `selected` choose the
/// colours of the theme in use; `underlined` marks the cursor.
#[derive(Clone, Copy, Debug, PartialEq, Eq, Structural)]
pub struct TextStyle {
    pub enabled: bool,
    pub selected: bool,
    pub underlined: bool,
}

impl TextStyle {
    /// The style of ordinary text.
    pub open spec fn spec_text(enabled: bool, selected: bool) -> TextStyle {
        TextStyle { enabled, selected, underlined: false }
    }

    /// The style of ordinary text.
    #[verifier::when_used_as_spec(spec_text)]
    pub fn text(enabled: bool, selected: bool) -> (res: TextStyle)
        ensures
            res == Self::spec_text(enabled, selected),
    {
        TextStyle { enabled, selected, underlined: false }
    }

    /// This style, underlined.
    pub open spec fn spec_underline(self) -> TextStyle {
        TextStyle { underlined: true, ..self }
    }

    /// This style, underlined.
    #[verifier::when_used_as_spec(spec_underline)]
    pub fn underline(self) -> (res: TextStyle)
        ensures
            res == self.spec_underline(),
    {
        TextStyle { enabled: self.enabled, selected: self.selected, underlined: true }
    }
}

/// A piece of text in one style.
#[derive(Debug)]
pub struct Span {
    pub content: String,
    pub style: TextStyle,
}

/// A span as characters and a style.
pub struct SpanView {
    pub content: Seq<char>,
    pub style: TextStyle,
}

impl View for Span {
    type V = SpanView;

    open spec fn view(&self) -> SpanView {
        SpanView { content: self.content@, style: self.style }
    }
}

impl Span {
    /// `content` in `style`.
    pub fn styled(content: &str, style: TextStyle) -> (res: Span)
        ensures
            res@ == (SpanView { content: content@, style }),
    {
        Span { content: content.to_owned(), style }
    }
}

/// The views of `spans`, in order.
pub open spec fn spans_view(spans: Seq<Span>) -> Seq<SpanView> {
    spans.map_values(|span: Span| span@)
}

} // verus!
