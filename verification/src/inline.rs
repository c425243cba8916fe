//! Inline spans: the pieces a text line is made of.

use vstd::prelude::*;

verus! {

/// A part of a text line.
///
/// The text is kept exactly as the caller supplied it. It is escaped when the
/// line is rendered, so no inline escape sequence of the caller's reaches the
/// ROFF processor. The text may contain newlines.
#[derive(Debug, PartialEq, Eq)]
pub enum Inline {
    /// Text in the roman font, the normal font when nothing else is chosen.
    Roman(String),
    /// Text in the italic font.
    Italic(String),
    /// Text in the bold font.
    Bold(String),
    /// A hard line break.
    LineBreak,
}

/// The mathematical value of an [`Inline`].
#[verifier::ext_equal]
pub enum InlineView {
    Roman(Seq<char>),
    Italic(Seq<char>),
    Bold(Seq<char>),
    LineBreak,
}

impl View for Inline {
    type V = InlineView;

    open spec fn view(&self) -> InlineView {
        match self {
            Inline::Roman(text) => InlineView::Roman(text@),
            Inline::Italic(text) => InlineView::Italic(text@),
            Inline::Bold(text) => InlineView::Bold(text@),
            Inline::LineBreak => InlineView::LineBreak,
        }
    }
}

impl DeepView for Inline {
    type V = InlineView;

    open spec fn deep_view(&self) -> InlineView {
        self@
    }
}

impl Clone for Inline {
    fn clone(&self) -> (copy: Inline)
        ensures
            copy@ == self@,
    {
        match self {
            Inline::Roman(text) => Inline::Roman(text.clone()),
            Inline::Italic(text) => Inline::Italic(text.clone()),
            Inline::Bold(text) => Inline::Bold(text.clone()),
            Inline::LineBreak => Inline::LineBreak,
        }
    }
}

/// Return some inline text in the roman font.
pub fn roman(input: &str) -> (span: Inline)
    ensures
        span@ == InlineView::Roman(input@),
{
    Inline::Roman(input.to_owned())
}

/// Return some inline text in the bold font.
pub fn bold(input: &str) -> (span: Inline)
    ensures
        span@ == InlineView::Bold(input@),
{
    Inline::Bold(input.to_owned())
}

/// Return some inline text in the italic font.
pub fn italic(input: &str) -> (span: Inline)
    ensures
        span@ == InlineView::Italic(input@),
{
    Inline::Italic(input.to_owned())
}

/// Return an inline element for a hard line break.
pub fn line_break() -> (span: Inline)
    ensures
        span@ == InlineView::LineBreak,
{
    Inline::LineBreak
}

/// The conversion is described by the `ensures` of `from` itself, over the
/// view of the span: two strings with the same characters are not known to be
/// the same value, so no span can be named as the result.
impl<'a> vstd::std_specs::convert::FromSpecImpl<&'a str> for Inline {
    open spec fn obeys_from_spec() -> bool {
        false
    }

    open spec fn from_spec(s: &'a str) -> Inline {
        arbitrary()
    }
}

/// A plain piece of text is inline text in the roman font.
impl<'a> From<&'a str> for Inline {
    fn from(s: &'a str) -> (span: Inline)
        ensures
            span@ == InlineView::Roman(s@),
    {
        roman(s)
    }
}

} // verus!
