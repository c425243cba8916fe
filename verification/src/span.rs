//! How one span of a text line is written out.

use crate::escape::{
    escape_apostrophes, escape_apostrophes_spec, escape_inline, escape_inline_spec,
    escape_leading_cc, escape_leading_cc_spec, escaped_apostrophe_char, escaped_inline_char,
    lemma_escape_apostrophes_concat, lemma_escape_apostrophes_plain, lemma_escape_inline_concat,
    lemma_escape_inline_plain, lemma_escape_leading_cc_after_newline,
    lemma_escape_leading_cc_concat, lemma_escape_leading_cc_guards,
    lemma_escape_leading_cc_plain, opens_line, starts_with_cc, starts_with_cc_spec,
};
use crate::inline::{Inline, InlineView};
use vstd::prelude::*;

verus! {

/// Whether apostrophes are replaced by the string register `Aq` on output.
#[derive(Debug, Clone, Copy, PartialEq, Eq)]
pub enum Apostrophes {
    /// Replace each apostrophe; the output then needs the preamble.
    Handle,
    /// Leave apostrophes as they are.
    DontHandle,
}

/// The text of a span with its backslashes and hyphens escaped, and its
/// apostrophes replaced where that is asked for.
pub open spec fn quoted_text(text: Seq<char>, apostrophes: Apostrophes) -> Seq<char> {
    match apostrophes {
        Apostrophes::Handle => escape_apostrophes_spec(escape_inline_spec(text)),
        Apostrophes::DontHandle => escape_inline_spec(text),
    }
}

/// Text as it is written at the given place of a line: with `\&` in front
/// where it stands at the start of the line and begins with a control
/// character.
pub open spec fn guarded_at_start(text: Seq<char>, at_line_start: bool) -> Seq<char> {
    if at_line_start && starts_with_cc_spec(text) {
        "\\&"@ + text
    } else {
        text
    }
}

/// The text of a styled span as it is written out: backslashes and hyphens
/// escaped, apostrophes replaced where that is asked for, embedded newlines
/// guarded, and the whole guarded once more where the span opens the line.
pub open spec fn span_text(text: Seq<char>, at_line_start: bool, apostrophes: Apostrophes) -> Seq<
    char,
> {
    guarded_at_start(escape_leading_cc_spec(quoted_text(text, apostrophes)), at_line_start)
}

impl InlineView {
    /// What the span contributes to its text line.
    pub open spec fn rendered(self, at_line_start: bool, apostrophes: Apostrophes) -> Seq<char> {
        match self {
            InlineView::LineBreak => if at_line_start {
                ".br\n"@
            } else {
                "\n.br\n"@
            },
            InlineView::Roman(text) => span_text(text, at_line_start, apostrophes),
            InlineView::Italic(text) => "\\fI"@ + span_text(text, at_line_start, apostrophes)
                + "\\fR"@,
            InlineView::Bold(text) => "\\fB"@ + span_text(text, at_line_start, apostrophes)
                + "\\fR"@,
        }
    }
}

/// Write out the text of a styled span: see [`span_text`].
pub fn render_span_text(text: &str, at_line_start: bool, apostrophes: Apostrophes) -> (out: String)
    ensures
        out@ == span_text(text@, at_line_start, apostrophes),
{
    let escaped = escape_inline(text);
    let quoted = match apostrophes {
        Apostrophes::Handle => escape_apostrophes(escaped.as_str()),
        Apostrophes::DontHandle => escaped,
    };
    let guarded = escape_leading_cc(quoted.as_str());
    // A period or an apostrophe at the start of the line would make it a
    // control line. A zero-width glyph in front prevents that. It is added
    // only where it is needed, to keep the output readable, and it is not the
    // business of `escape_leading_cc`, which cannot know where a span stands.
    if at_line_start && starts_with_cc(guarded.as_str()) {
        let mut out = String::new();
        out.append("\\&");
        out.append(guarded.as_str());
        out
    } else {
        guarded
    }
}

impl Inline {
    /// Generate the ROFF source of the span and append it to `out`.
    ///
    /// A line break is handled apart from the styled spans: it introduces a
    /// control line, and the period that opens it must not be escaped.
    pub fn render(&self, out: &mut String, at_line_start: bool, apostrophes: Apostrophes)
        ensures
            final(out)@ == old(out)@ + self@.rendered(at_line_start, apostrophes),
    {
        match self {
            Inline::LineBreak => {
                if at_line_start {
                    out.append(".br\n");
                } else {
                    out.append("\n.br\n");
                }
            },
            Inline::Roman(text) => {
                let text = render_span_text(text.as_str(), at_line_start, apostrophes);
                out.append(text.as_str());
            },
            Inline::Italic(text) => {
                let text = render_span_text(text.as_str(), at_line_start, apostrophes);
                out.append("\\fI");
                out.append(text.as_str());
                out.append("\\fR");
            },
            Inline::Bold(text) => {
                let text = render_span_text(text.as_str(), at_line_start, apostrophes);
                out.append("\\fB");
                out.append(text.as_str());
                out.append("\\fR");
            },
        }
    }
}

/// A bold span is `\fB`, the text as a roman span in its place would be
/// written, and `\fR`; an italic span the same with `\fI`.
pub proof fn lemma_styled_span_brackets_text(
    text: Seq<char>,
    at_line_start: bool,
    apostrophes: Apostrophes,
)
    ensures
        InlineView::Bold(text).rendered(at_line_start, apostrophes) == "\\fB"@ + InlineView::Roman(
            text,
        ).rendered(at_line_start, apostrophes) + "\\fR"@,
        InlineView::Italic(text).rendered(at_line_start, apostrophes) == "\\fI"@
            + InlineView::Roman(text).rendered(at_line_start, apostrophes) + "\\fR"@,
{
}

/// Escaping and replacing go through concatenation: the parts of a text
/// can be treated one by one.
pub proof fn lemma_quoted_text_concat(a: Seq<char>, b: Seq<char>, apostrophes: Apostrophes)
    ensures
        quoted_text(a + b, apostrophes) == quoted_text(a, apostrophes) + quoted_text(
            b,
            apostrophes,
        ),
{
    lemma_escape_inline_concat(a, b);
    if apostrophes is Handle {
        lemma_escape_apostrophes_concat(escape_inline_spec(a), escape_inline_spec(b));
    }
}

/// Text that holds nothing the policy escapes or replaces is left as it
/// is.
pub proof fn lemma_quoted_text_plain(text: Seq<char>, apostrophes: Apostrophes)
    requires
        !text.contains('\\'),
        !text.contains('-'),
        apostrophes is Handle ==> !text.contains('\''),
    ensures
        quoted_text(text, apostrophes) == text,
{
    lemma_escape_inline_plain(text);
    if apostrophes is Handle {
        lemma_escape_apostrophes_plain(text);
    }
}

/// One character of a span is written as itself, or as one of three escape
/// sequences.
pub proof fn lemma_quoted_char(c: char, apostrophes: Apostrophes)
    ensures
        quoted_text(seq![c], apostrophes) == if c == '\\' {
            "\\\\"@
        } else if c == '-' {
            "\\-"@
        } else if c == '\'' && apostrophes is Handle {
            "\\*(Aq"@
        } else {
            seq![c]
        },
{
    reveal_strlit("\\\\");
    reveal_strlit("\\-");
    seq![c].lemma_flat_map_singleton(|c: char| escaped_inline_char(c));
    let piece = escaped_inline_char(c);
    if apostrophes is Handle {
        if c == '\\' || c == '-' {
            assert(!piece.contains('\'')) by {
                if piece.contains('\'') {
                    let i = choose|i: int| 0 <= i < piece.len() && piece[i] == '\'';
                    assert(piece[i] == '\'');
                }
            }
            lemma_escape_apostrophes_plain(piece);
        } else {
            piece.lemma_flat_map_singleton(|c: char| escaped_apostrophe_char(c));
        }
    }
}

/// What stands behind the start of a text has no part in the guarding of
/// the start.
pub proof fn lemma_guarded_at_start_join(a: Seq<char>, b: Seq<char>, at_line_start: bool)
    requires
        a.len() > 0 || !starts_with_cc_spec(b),
    ensures
        guarded_at_start(a + b, at_line_start) == guarded_at_start(a, at_line_start) + b,
{
    if a.len() > 0 {
        assert((a + b)[0] == a[0]);
        assert(("\\&"@ + a) + b =~= "\\&"@ + (a + b));
    } else {
        assert(a + b =~= b);
    }
}

/// Where a piece of escaped text stands in the middle of a span, between
/// texts that are guarded apart from it, the span is written as what stands
/// before the piece in the same place on the line, the piece, and what
/// stands behind it further on in a line.
proof fn lemma_span_text_around(
    before: Seq<char>,
    piece: Seq<char>,
    after: Seq<char>,
    whole: Seq<char>,
    at_line_start: bool,
    apostrophes: Apostrophes,
)
    requires
        piece.len() > 0,
        !starts_with_cc_spec(piece),
        escape_leading_cc_spec(quoted_text(whole, apostrophes)) == escape_leading_cc_spec(
            quoted_text(before, apostrophes),
        ) + piece + escape_leading_cc_spec(quoted_text(after, apostrophes)),
    ensures
        span_text(whole, at_line_start, apostrophes) == span_text(
            before,
            at_line_start,
            apostrophes,
        ) + piece + span_text(after, false, apostrophes),
{
    let g_before = escape_leading_cc_spec(quoted_text(before, apostrophes));
    let g_after = escape_leading_cc_spec(quoted_text(after, apostrophes));
    assert(g_before + piece + g_after =~= g_before + (piece + g_after));
    assert((piece + g_after)[0] == piece[0]);
    lemma_guarded_at_start_join(g_before, piece + g_after, at_line_start);
    assert(guarded_at_start(g_before, at_line_start) + (piece + g_after) =~= guarded_at_start(
        g_before,
        at_line_start,
    ) + piece + g_after);
}

/// Every hyphen of a span is written as `\-`, wherever in the text it
/// stands, under either policy on apostrophes. What stands before it is
/// written as it would be alone in the same place on the line, what stands
/// behind it as it would be alone further on in a line.
pub proof fn lemma_span_text_hyphen(
    before: Seq<char>,
    after: Seq<char>,
    at_line_start: bool,
    apostrophes: Apostrophes,
)
    ensures
        span_text(before + seq!['-'] + after, at_line_start, apostrophes) == span_text(
            before,
            at_line_start,
            apostrophes,
        ) + "\\-"@ + span_text(after, false, apostrophes),
{
    reveal_strlit("\\-");
    let hyphen = "\\-"@;
    let whole = before + seq!['-'] + after;
    let q_before = quoted_text(before, apostrophes);
    let q_after = quoted_text(after, apostrophes);
    assert(quoted_text(whole, apostrophes) == q_before + hyphen + q_after) by {
        lemma_quoted_text_concat(before + seq!['-'], after, apostrophes);
        lemma_quoted_text_concat(before, seq!['-'], apostrophes);
        lemma_quoted_char('-', apostrophes);
    }
    assert(escape_leading_cc_spec(q_before + hyphen + q_after) == escape_leading_cc_spec(q_before)
        + hyphen + escape_leading_cc_spec(q_after)) by {
        assert(forall|i: int| !opens_line(hyphen, i));
        lemma_escape_leading_cc_plain(hyphen);
        assert((q_before + hyphen).last() == '-');
        lemma_escape_leading_cc_concat(q_before + hyphen, q_after);
        lemma_escape_leading_cc_concat(q_before, hyphen);
    }
    lemma_span_text_around(before, hyphen, after, whole, at_line_start, apostrophes);
}

/// A period directly behind a newline inside the text of a span is written
/// with `\&` in front of it, under either policy on apostrophes, and so is
/// an apostrophe where apostrophes are left alone. What stands before the
/// newline is written as it would be alone in the same place on the line,
/// what stands behind the guarded character as it would be alone further on
/// in a line.
pub proof fn lemma_span_text_after_newline(
    before: Seq<char>,
    c: char,
    after: Seq<char>,
    at_line_start: bool,
    apostrophes: Apostrophes,
)
    requires
        c == '.' || (c == '\'' && apostrophes is DontHandle),
    ensures
        span_text(before + seq!['\n', c] + after, at_line_start, apostrophes) == span_text(
            before,
            at_line_start,
            apostrophes,
        ) + (seq!['\n'] + "\\&"@ + seq![c]) + span_text(after, false, apostrophes),
{
    let pair = seq!['\n', c];
    let whole = before + pair + after;
    let q_before = quoted_text(before, apostrophes);
    let q_after = quoted_text(after, apostrophes);
    let piece = seq!['\n'] + "\\&"@ + seq![c];
    assert(quoted_text(whole, apostrophes) == q_before + pair + q_after) by {
        lemma_quoted_text_concat(before + pair, after, apostrophes);
        lemma_quoted_text_concat(before, pair, apostrophes);
        assert(pair =~= seq!['\n'] + seq![c]);
        lemma_quoted_text_concat(seq!['\n'], seq![c], apostrophes);
        lemma_quoted_char('\n', apostrophes);
        lemma_quoted_char(c, apostrophes);
    }
    lemma_escape_leading_cc_after_newline(q_before, c, q_after);
    assert(escape_leading_cc_spec(q_before) + seq!['\n'] + "\\&"@ + seq![c]
        + escape_leading_cc_spec(q_after) =~= escape_leading_cc_spec(q_before) + piece
        + escape_leading_cc_spec(q_after));
    assert(piece[0] == '\n');
    lemma_span_text_around(before, piece, after, whole, at_line_start, apostrophes);
}

/// A span that begins with a period, and stands first on its line, is
/// rendered with `\&` directly in front of the period. The same holds of an
/// apostrophe where apostrophes are left alone.
pub proof fn lemma_leading_control_char(text: Seq<char>, apostrophes: Apostrophes)
    requires
        text.len() > 0,
        text[0] == '.' || (text[0] == '\'' && apostrophes is DontHandle),
    ensures
        span_text(text, true, apostrophes) == "\\&"@ + span_text(text, false, apostrophes),
        span_text(text, false, apostrophes).len() > 0,
        span_text(text, false, apostrophes)[0] == text[0],
{
    let head = seq![text[0]];
    let rest = text.skip(1);
    assert(text =~= head + rest);
    lemma_quoted_text_concat(head, rest, apostrophes);
    lemma_quoted_char(text[0], apostrophes);
    let quoted = quoted_text(text, apostrophes);
    assert(quoted[0] == text[0]);
    lemma_escape_leading_cc_guards(quoted);
}

/// The promise that caller text makes no control line: a styled span as it
/// is written out holds no newline that is directly followed by a period or
/// an apostrophe, and where it stands first on its line it does not begin
/// with one either.
pub proof fn lemma_span_text_is_guarded(
    text: Seq<char>,
    at_line_start: bool,
    apostrophes: Apostrophes,
)
    ensures
        forall|i: int| !opens_line(span_text(text, at_line_start, apostrophes), i),
        at_line_start ==> !starts_with_cc_spec(span_text(text, at_line_start, apostrophes)),
{
    reveal_strlit("\\&");
    let guarded = escape_leading_cc_spec(quoted_text(text, apostrophes));
    lemma_escape_leading_cc_guards(quoted_text(text, apostrophes));
    let out = span_text(text, at_line_start, apostrophes);
    if at_line_start && starts_with_cc_spec(guarded) {
        assert(out == "\\&"@ + guarded);
        assert forall|i: int| !opens_line(out, i) by {
            if 2 < i < out.len() {
                assert(!opens_line(guarded, i - 2));
                assert(out[i] == guarded[i - 2] && out[i - 1] == guarded[i - 3]);
            }
        }
    }
}

/// Font changes around a text that makes no control line make none.
proof fn lemma_bracketed_text_is_guarded(open: Seq<char>, inner: Seq<char>, close: Seq<char>)
    requires
        open.len() == 3,
        close.len() == 3,
        open[0] == '\\',
        open[2] != '\n',
        close[0] == '\\',
        forall|i: int| 0 <= i < 3 ==> open[i] != '\n' && close[i] != '\n',
        forall|i: int| !opens_line(inner, i),
    ensures
        forall|i: int| !opens_line(open + inner + close, i),
        !starts_with_cc_spec(open + inner + close),
{
    let out = open + inner + close;
    assert(out[0] == open[0]);
    assert forall|i: int| !opens_line(out, i) by {
        if 0 < i < out.len() {
            if i < 3 {
                assert(out[i - 1] == open[i - 1]);
            } else if i == 3 {
                assert(out[i - 1] == open[2]);
            } else if i < 3 + inner.len() {
                assert(!opens_line(inner, i - 3));
                assert(out[i] == inner[i - 3] && out[i - 1] == inner[i - 4]);
            } else if i == 3 + inner.len() {
                assert(out[i] == close[0]);
            } else {
                assert(out[i - 1] == close[i - 4 - inner.len()]);
            }
        }
    }
}

/// The same promise for a whole span with its font changes: a roman, italic
/// or bold span makes no control line, whatever its text.
pub proof fn lemma_styled_span_is_guarded(
    span: InlineView,
    at_line_start: bool,
    apostrophes: Apostrophes,
)
    requires
        span !is LineBreak,
    ensures
        forall|i: int| !opens_line(span.rendered(at_line_start, apostrophes), i),
        at_line_start ==> !starts_with_cc_spec(span.rendered(at_line_start, apostrophes)),
{
    reveal_strlit("\\fB");
    reveal_strlit("\\fI");
    reveal_strlit("\\fR");
    match span {
        InlineView::Roman(text) => {
            lemma_span_text_is_guarded(text, at_line_start, apostrophes);
        },
        InlineView::Italic(text) => {
            lemma_span_text_is_guarded(text, at_line_start, apostrophes);
            lemma_bracketed_text_is_guarded(
                "\\fI"@,
                span_text(text, at_line_start, apostrophes),
                "\\fR"@,
            );
        },
        InlineView::Bold(text) => {
            lemma_span_text_is_guarded(text, at_line_start, apostrophes);
            lemma_bracketed_text_is_guarded(
                "\\fB"@,
                span_text(text, at_line_start, apostrophes),
                "\\fR"@,
            );
        },
        InlineView::LineBreak => {},
    }
}

} // verus!
