//! Lines of a document and the one algorithm that renders them.

use crate::escape::{
    escape_spaces, escape_spaces_spec, is_control_char, lemma_escape_leading_cc_plain,
    opens_line, starts_with_cc_spec,
};
use crate::inline::{Inline, InlineView};
use crate::span::{
    lemma_leading_control_char, lemma_quoted_text_plain, lemma_styled_span_is_guarded, span_text,
    Apostrophes,
};
use vstd::prelude::*;

verus! {

/// A line in a ROFF document.
#[derive(Debug, PartialEq, Eq)]
pub enum Line {
    /// A control line.
    Control {
        /// Name of the control request or macro being invoked.
        name: String,
        /// Arguments on the control line.
        args: Vec<String>,
    },
    /// A text line.
    Text(Vec<Inline>),
}

/// The mathematical value of a [`Line`].
#[verifier::ext_equal]
pub enum LineView {
    Control { name: Seq<char>, args: Seq<Seq<char>> },
    Text(Seq<InlineView>),
}

impl View for Line {
    type V = LineView;

    open spec fn view(&self) -> LineView {
        match self {
            Line::Control { name, args } => LineView::Control {
                name: name@,
                args: args.deep_view(),
            },
            Line::Text(inlines) => LineView::Text(inlines.deep_view()),
        }
    }
}

impl DeepView for Line {
    type V = LineView;

    open spec fn deep_view(&self) -> LineView {
        self@
    }
}

impl Clone for Line {
    fn clone(&self) -> (copy: Line)
        ensures
            copy@ == self@,
    {
        match self {
            Line::Control { name, args } => {
                let copy = Line::Control { name: name.clone(), args: args.clone() };
                assert(copy@ =~= self@);
                copy
            },
            Line::Text(inlines) => {
                let copy = Line::Text(inlines.clone());
                assert(copy@ =~= self@);
                copy
            },
        }
    }
}

/// What each of the first `n` spans of a text line contributes. Only the
/// first span of the line counts as standing at the start of the line.
pub open spec fn span_pieces(spans: Seq<InlineView>, n: int, apostrophes: Apostrophes) -> Seq<
    Seq<char>,
> {
    Seq::new(n as nat, |i: int| spans[i].rendered(i == 0, apostrophes))
}

/// The first `n` spans of a text line as they are written out, with nothing
/// between them.
pub open spec fn rendered_spans(spans: Seq<InlineView>, n: int, apostrophes: Apostrophes) -> Seq<
    char,
> {
    span_pieces(spans, n, apostrophes).flatten()
}

/// One argument of a control line as it is written out, with the space that
/// separates it from what stands before it.
pub open spec fn rendered_arg(arg: Seq<char>) -> Seq<char> {
    " "@ + escape_spaces_spec(arg)
}

/// The arguments of a control line as they are written out.
pub open spec fn rendered_args(args: Seq<Seq<char>>) -> Seq<char> {
    args.flat_map(|arg: Seq<char>| rendered_arg(arg))
}

impl LineView {
    /// The ROFF source text of the line, its closing newline included.
    pub open spec fn rendered(self, apostrophes: Apostrophes) -> Seq<char> {
        match self {
            LineView::Control { name, args } => "."@ + name + rendered_args(args) + "\n"@,
            LineView::Text(spans) => rendered_spans(spans, spans.len() as int, apostrophes)
                + "\n"@,
        }
    }
}

impl Line {
    /// A control line.
    pub fn control(name: String, args: Vec<String>) -> (line: Line)
        ensures
            line@ == (LineView::Control { name: name@, args: args.deep_view() }),
    {
        Line::Control { name, args }
    }

    /// A text line, consisting of inline elements.
    pub fn text(parts: Vec<Inline>) -> (line: Line)
        ensures
            line@ == LineView::Text(parts.deep_view()),
    {
        Line::Text(parts)
    }

    /// Generate the ROFF source of the line and append it to `out`.
    ///
    /// A control line is its name behind a period and its arguments, each
    /// behind a space. A text line is its spans with nothing between them;
    /// only the first of them stands at the start of the line.
    pub fn render(&self, out: &mut String, apostrophes: Apostrophes)
        ensures
            final(out)@ == old(out)@ + self@.rendered(apostrophes),
    {
        let ghost before = out@;
        match self {
            Line::Control { name, args } => {
                out.append(".");
                out.append(name.as_str());
                let mut i: usize = 0;
                while i < args.len()
                    invariant
                        i <= args.len(),
                        out@ == before + "."@ + name@ + rendered_args(args.deep_view().take(i as int)),
                    decreases args.len() - i,
                {
                    proof {
                        args.deep_view().lemma_flat_map_take_append(
                            |arg: Seq<char>| rendered_arg(arg),
                            i as int,
                        );
                    }
                    out.append(" ");
                    let quoted = escape_spaces(args[i].as_str());
                    out.append(quoted.as_str());
                    i += 1;
                }
                proof {
                    assert(args.deep_view().take(args.len() as int) =~= args.deep_view());
                }
                out.append("\n");
            },
            Line::Text(inlines) => {
                let mut at_line_start = true;
                let mut i: usize = 0;
                while i < inlines.len()
                    invariant
                        i <= inlines.len(),
                        at_line_start == (i == 0),
                        out@ == before + rendered_spans(inlines.deep_view(), i as int, apostrophes),
                    decreases inlines.len() - i,
                {
                    proof {
                        lemma_rendered_spans_step(inlines.deep_view(), i as int, apostrophes);
                    }
                    inlines[i].render(out, at_line_start, apostrophes);
                    at_line_start = false;
                    i += 1;
                }
                out.append("\n");
            },
        }
    }
}

/// Rendering one span more adds what that span contributes to what the
/// spans before it gave.
pub proof fn lemma_rendered_spans_step(spans: Seq<InlineView>, n: int, apostrophes: Apostrophes)
    requires
        0 <= n,
    ensures
        rendered_spans(spans, n + 1, apostrophes) == rendered_spans(spans, n, apostrophes)
            + spans[n].rendered(n == 0, apostrophes),
{
    let piece = spans[n].rendered(n == 0, apostrophes);
    assert(span_pieces(spans, n + 1, apostrophes) =~= span_pieces(spans, n, apostrophes).push(
        piece,
    ));
    span_pieces(spans, n, apostrophes).lemma_flatten_push(piece);
}

/// A text line of one span is that span, rendered as the first of its line,
/// and a newline.
pub proof fn lemma_single_span_line(span: InlineView, apostrophes: Apostrophes)
    ensures
        LineView::Text(seq![span]).rendered(apostrophes) == span.rendered(true, apostrophes)
            + "\n"@,
{
    let spans = seq![span];
    lemma_rendered_spans_step(spans, 0, apostrophes);
    assert(span_pieces(spans, 0, apostrophes) =~= Seq::<Seq<char>>::empty());
    assert(rendered_spans(spans, 1, apostrophes) =~= span.rendered(true, apostrophes));
}

/// Text that holds nothing the renderer escapes.
pub open spec fn is_plain_text(text: Seq<char>, apostrophes: Apostrophes) -> bool {
    &&& !text.contains('\\')
    &&& !text.contains('-')
    &&& apostrophes is Handle ==> !text.contains('\'')
    &&& !starts_with_cc_spec(text)
    &&& forall|i: int| !opens_line(text, i)
}

/// A line of one roman span that holds nothing to escape is rendered as
/// that exact text, followed by one newline.
pub proof fn lemma_plain_roman_line(text: Seq<char>, apostrophes: Apostrophes)
    requires
        is_plain_text(text, apostrophes),
    ensures
        LineView::Text(seq![InlineView::Roman(text)]).rendered(apostrophes) == text + "\n"@,
{
    lemma_quoted_text_plain(text, apostrophes);
    lemma_escape_leading_cc_plain(text);
    lemma_single_span_line(InlineView::Roman(text), apostrophes);
}

/// A line that holds one roman span which begins with a period is rendered
/// with `\&` in front of the period.
pub proof fn lemma_leading_period_line(text: Seq<char>, apostrophes: Apostrophes)
    requires
        text.len() > 0,
        text[0] == '.',
    ensures
        LineView::Text(seq![InlineView::Roman(text)]).rendered(apostrophes) == "\\&"@ + span_text(
            text,
            false,
            apostrophes,
        ) + "\n"@,
        span_text(text, false, apostrophes)[0] == '.',
{
    lemma_leading_control_char(text, apostrophes);
    lemma_single_span_line(InlineView::Roman(text), apostrophes);
}

/// Each argument of a control line is written behind one space: in double
/// quotes where it holds a space, as it is where it holds none.
pub proof fn lemma_control_line_argument(
    name: Seq<char>,
    args: Seq<Seq<char>>,
    arg: Seq<char>,
    apostrophes: Apostrophes,
)
    ensures
        arg.contains(' ') ==> rendered_args(args.push(arg)) == rendered_args(args) + " "@ + "\""@
            + arg + "\""@,
        !arg.contains(' ') ==> rendered_args(args.push(arg)) == rendered_args(args) + " "@ + arg,
        (LineView::Control { name, args: args.push(arg) }).rendered(apostrophes) == "."@ + name
            + rendered_args(args) + rendered_arg(arg) + "\n"@,
{
    args.lemma_flat_map_push(|arg: Seq<char>| rendered_arg(arg), arg);
    if arg.contains(' ') {
        assert(rendered_args(args) + (" "@ + ("\""@ + arg + "\""@)) =~= rendered_args(args) + " "@
            + "\""@ + arg + "\""@);
    } else {
        assert(rendered_args(args) + (" "@ + arg) =~= rendered_args(args) + " "@ + arg);
    }
    assert("."@ + name + (rendered_args(args) + rendered_arg(arg)) + "\n"@ =~= "."@ + name
        + rendered_args(args) + rendered_arg(arg) + "\n"@);
}

/// A text line that holds one roman, italic or bold span and nothing else
/// holds no control line when it is written out.
pub proof fn lemma_single_span_line_is_text(span: InlineView, apostrophes: Apostrophes)
    requires
        span !is LineBreak,
    ensures
        !starts_with_cc_spec(LineView::Text(seq![span]).rendered(apostrophes)),
        forall|i: int| !opens_line(LineView::Text(seq![span]).rendered(apostrophes), i),
{
    reveal_strlit("\n");
    lemma_single_span_line(span, apostrophes);
    lemma_styled_span_is_guarded(span, true, apostrophes);
    let inner = span.rendered(true, apostrophes);
    let out = LineView::Text(seq![span]).rendered(apostrophes);
    assert(out == inner + "\n"@);
    assert forall|i: int| !opens_line(out, i) by {
        if 0 < i < inner.len() {
            assert(!opens_line(inner, i));
            assert(out[i] == inner[i] && out[i - 1] == inner[i - 1]);
        }
    }
}

/// A line break that opens its text line is rendered as the request `.br`
/// on a line of its own.
pub proof fn lemma_line_break_at_start(rest: Seq<InlineView>, apostrophes: Apostrophes)
    ensures
        rendered_spans(seq![InlineView::LineBreak] + rest, 1, apostrophes) == ".br\n"@,
        LineView::Text(seq![InlineView::LineBreak]).rendered(apostrophes) == ".br\n"@ + "\n"@,
{
    let spans = seq![InlineView::LineBreak] + rest;
    lemma_rendered_spans_step(spans, 0, apostrophes);
    assert(span_pieces(spans, 0, apostrophes) =~= Seq::<Seq<char>>::empty());
    assert(rendered_spans(spans, 1, apostrophes) =~= ".br\n"@);
    lemma_single_span_line(InlineView::LineBreak, apostrophes);
}

/// A line break behind other spans is rendered as a newline, which ends
/// what stands before it, and the request `.br` on a line of its own.
pub proof fn lemma_line_break_after_content(
    spans: Seq<InlineView>,
    n: int,
    apostrophes: Apostrophes,
)
    requires
        0 < n < spans.len(),
        spans[n] is LineBreak,
    ensures
        rendered_spans(spans, n + 1, apostrophes) == rendered_spans(spans, n, apostrophes)
            + "\n.br\n"@,
{
    lemma_rendered_spans_step(spans, n, apostrophes);
}

/// A line of `out` starts at `i` and opens with a control character: the
/// processor reads that line as a control line.
pub open spec fn control_line_at(out: Seq<char>, i: int) -> bool {
    &&& 0 <= i < out.len()
    &&& i == 0 || out[i - 1] == '\n'
    &&& is_control_char(out[i])
}

/// At `i` stands the request `.br` and the newline that ends its line.
pub open spec fn line_break_at(out: Seq<char>, i: int) -> bool {
    0 <= i && i + 4 <= out.len() && out.subrange(i, i + 4) == ".br\n"@
}

/// The one place where the text of a span can open a control line: a roman
/// span that is not the first of its line, whose text as it is written out
/// begins with a control character, behind spans that wrote nothing or
/// ended their own output with a newline. Only the first span of a line is
/// guarded at its start.
pub open spec fn unguarded_seam(spans: Seq<InlineView>, k: int, apostrophes: Apostrophes) -> bool {
    &&& 0 < k < spans.len()
    &&& spans[k] matches InlineView::Roman(text)
    &&& starts_with_cc_spec(span_text(text, false, apostrophes))
    &&& rendered_spans(spans, k, apostrophes).len() == 0 || rendered_spans(
        spans,
        k,
        apostrophes,
    ).last() == '\n'
}

/// In the first `n` spans of a text line without unguarded seam, as they
/// are written out, every control line is a `.br` of a line break.
proof fn lemma_spans_hold_only_line_breaks(
    spans: Seq<InlineView>,
    n: int,
    apostrophes: Apostrophes,
)
    requires
        0 <= n <= spans.len(),
        forall|k: int| !unguarded_seam(spans, k, apostrophes),
    ensures
        forall|i: int|
            control_line_at(rendered_spans(spans, n, apostrophes), i) ==> line_break_at(
                rendered_spans(spans, n, apostrophes),
                i,
            ),
    decreases n,
{
    reveal_strlit(".br\n");
    reveal_strlit("\n.br\n");
    reveal_strlit("\\fB");
    reveal_strlit("\\fI");
    if n == 0 {
        assert(span_pieces(spans, 0, apostrophes) =~= Seq::<Seq<char>>::empty());
    } else {
        let m = n - 1;
        lemma_spans_hold_only_line_breaks(spans, m, apostrophes);
        lemma_rendered_spans_step(spans, m, apostrophes);
        let before = rendered_spans(spans, m, apostrophes);
        let piece = spans[m].rendered(m == 0, apostrophes);
        let out = rendered_spans(spans, n, apostrophes);
        assert(out == before + piece);
        if spans[m] !is LineBreak {
            lemma_styled_span_is_guarded(spans[m], m == 0, apostrophes);
            assert(!unguarded_seam(spans, m, apostrophes));
        }
        assert forall|i: int| control_line_at(out, i) implies line_break_at(out, i) by {
            if i < before.len() {
                assert(control_line_at(before, i));
                assert(line_break_at(before, i));
                assert(out.subrange(i, i + 4) =~= before.subrange(i, i + 4));
            } else {
                let j = i - before.len();
                assert(out[i] == piece[j]);
                if j > 0 {
                    assert(out[i - 1] == piece[j - 1]);
                }
                if spans[m] is LineBreak {
                    if m == 0 {
                        assert(j == 0);
                        assert(out.subrange(i, i + 4) =~= ".br\n"@);
                    } else {
                        assert(j == 1);
                        assert(out.subrange(i, i + 4) =~= ".br\n"@);
                    }
                } else {
                    if j > 0 {
                        assert(opens_line(piece, j));
                    } else if m == 0 {
                        assert(starts_with_cc_spec(piece));
                    } else {
                        assert(before.len() == 0 || before.last() == '\n');
                        assert(spans[m] is Roman);
                    }
                }
            }
        }
    }
}

/// The promise that caller text makes no control line, for a whole text
/// line: where no span stands at an unguarded seam, every line of the
/// rendered text line that opens with a control character is the `.br` of a
/// line break.
pub proof fn lemma_text_line_holds_only_line_breaks(
    spans: Seq<InlineView>,
    apostrophes: Apostrophes,
)
    requires
        forall|k: int| !unguarded_seam(spans, k, apostrophes),
    ensures
        forall|i: int|
            control_line_at(LineView::Text(spans).rendered(apostrophes), i) ==> line_break_at(
                LineView::Text(spans).rendered(apostrophes),
                i,
            ),
{
    reveal_strlit("\n");
    lemma_spans_hold_only_line_breaks(spans, spans.len() as int, apostrophes);
    let inner = rendered_spans(spans, spans.len() as int, apostrophes);
    let out = LineView::Text(spans).rendered(apostrophes);
    assert(out == inner + "\n"@);
    assert forall|i: int| control_line_at(out, i) implies line_break_at(out, i) by {
        if i < inner.len() {
            assert(control_line_at(inner, i));
            assert(line_break_at(inner, i));
            assert(out.subrange(i, i + 4) =~= inner.subrange(i, i + 4));
        }
    }
}

/// Every line ends its output with a newline, so that the next line of a
/// document starts a line of the output.
pub proof fn lemma_line_ends_with_newline(line: LineView, apostrophes: Apostrophes)
    ensures
        line.rendered(apostrophes).len() > 0,
        line.rendered(apostrophes).last() == '\n',
{
    reveal_strlit("\n");
}

} // verus!
