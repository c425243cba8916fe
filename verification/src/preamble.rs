//! Where the preamble stands in a rendering, and where it cannot stand.
//!
//! The preamble holds a reference to a number register: a backslash, with
//! no backslash in front of it, followed by `n`. The text of a span never
//! yields such a reference, since every backslash that the renderer writes
//! is either one of a doubled pair or opens one of its own escape
//! sequences. So the preamble can come only from the renderer itself, or
//! from a control line that holds a backslash of the caller's.

use crate::document::{render_spec, rendered_lines, to_roff_spec, APOSTROPHE_PREAMBLE};
use crate::escape::{
    escape_leading_cc_spec, escape_spaces_spec, lemma_escape_leading_cc_after_newline,
    lemma_escape_leading_cc_concat, lemma_escape_leading_cc_guards,
    lemma_escape_leading_cc_plain, opens_line, starts_with_cc_spec,
};
use crate::inline::InlineView;
use crate::line::{
    lemma_rendered_spans_step, rendered_arg, rendered_args, rendered_spans, span_pieces,
    LineView,
};
use crate::span::{
    lemma_quoted_char, lemma_quoted_text_concat, quoted_text, span_text, Apostrophes,
};
use vstd::prelude::*;

verus! {

/// The pattern stands in `text` at `at`.
pub open spec fn occurs_at(pattern: Seq<char>, text: Seq<char>, at: int) -> bool {
    &&& 0 <= at
    &&& at + pattern.len() <= text.len()
    &&& text.subrange(at, at + pattern.len()) == pattern
}

/// No control line of the document holds a backslash, neither in its name
/// nor in an argument.
pub open spec fn control_lines_hold_no_backslash(lines: Seq<LineView>) -> bool {
    forall|i: int|
        0 <= i < lines.len() ==> (#[trigger] lines[i] matches LineView::Control { name, args }
            ==> !name.contains('\\') && forall|j: int|
            0 <= j < args.len() ==> !(#[trigger] args[j]).contains('\\'))
}

/// At `p` stands a backslash with no backslash in front of it, followed by
/// `n`.
spec fn register_at(s: Seq<char>, p: int) -> bool {
    &&& 0 <= p
    &&& p + 1 < s.len()
    &&& s[p] == '\\'
    &&& s[p + 1] == 'n'
    &&& p == 0 || s[p - 1] != '\\'
}

/// The text ends with a backslash that has no backslash in front of it.
spec fn ends_open(s: Seq<char>) -> bool {
    &&& s.len() > 0
    &&& s.last() == '\\'
    &&& s.len() == 1 || s[s.len() - 2] != '\\'
}

/// Text that holds no reference to a number register and cannot become the
/// start of one, whatever is written behind it.
spec fn tidy(s: Seq<char>) -> bool {
    &&& forall|p: int| !register_at(s, p)
    &&& !ends_open(s)
}

/// Tidy texts joined are tidy.
proof fn lemma_tidy_join(a: Seq<char>, b: Seq<char>)
    requires
        tidy(a),
        tidy(b),
    ensures
        tidy(a + b),
{
    let s = a + b;
    assert forall|p: int| !register_at(s, p) by {
        if register_at(s, p) {
            if p + 1 < a.len() {
                assert(register_at(a, p));
            } else if p + 1 == a.len() {
                assert(s[p] == a.last());
                if a.len() > 1 {
                    assert(s[p - 1] == a[a.len() - 2]);
                }
                assert(ends_open(a));
            } else {
                let q = p - a.len();
                assert(s[p] == b[q] && s[p + 1] == b[q + 1]);
                if q > 0 {
                    assert(s[p - 1] == b[q - 1]);
                }
                assert(register_at(b, q));
            }
        }
    }
    if b.len() == 0 {
        assert(s =~= a);
    } else if b.len() == 1 {
        assert(s.last() == b[0]);
    } else {
        assert(s.last() == b.last());
        assert(s[s.len() - 2] == b[b.len() - 2]);
    }
}

/// Text without backslash is tidy.
proof fn lemma_plain_is_tidy(s: Seq<char>)
    requires
        !s.contains('\\'),
    ensures
        tidy(s),
{
    assert forall|p: int| !register_at(s, p) by {
        if register_at(s, p) {
            assert(s.contains(s[p]));
        }
    }
    if s.len() > 0 {
        assert(s.contains(s.last()));
    }
}

/// What stands in the place of one character of a span is that character
/// or an escape sequence. Each is tidy, is left alone by the guarding of
/// embedded newlines, and opens with a control character only where it is
/// that character.
proof fn lemma_quoted_char_shape(c: char, apostrophes: Apostrophes)
    ensures
        tidy(quoted_text(seq![c], apostrophes)),
        quoted_text(seq![c], apostrophes).len() > 0,
        escape_leading_cc_spec(quoted_text(seq![c], apostrophes)) == quoted_text(
            seq![c],
            apostrophes,
        ),
        quoted_text(seq![c], apostrophes).last() == '\n' <==> c == '\n',
        starts_with_cc_spec(quoted_text(seq![c], apostrophes)) ==> quoted_text(
            seq![c],
            apostrophes,
        ) == seq![c],
{
    reveal_strlit("\\\\");
    reveal_strlit("\\-");
    reveal_strlit("\\*(Aq");
    lemma_quoted_char(c, apostrophes);
    let quoted = quoted_text(seq![c], apostrophes);
    assert(forall|i: int| !opens_line(quoted, i));
    lemma_escape_leading_cc_plain(quoted);
    assert(forall|p: int| !register_at(quoted, p));
}

/// The text of a span with its embedded newlines guarded is tidy, and ends
/// as the text before guarding ends.
proof fn lemma_guarded_text_is_tidy(text: Seq<char>, apostrophes: Apostrophes)
    ensures
        tidy(escape_leading_cc_spec(quoted_text(text, apostrophes))),
        quoted_text(text, apostrophes).len() > 0 ==> escape_leading_cc_spec(
            quoted_text(text, apostrophes),
        ).len() > 0 && escape_leading_cc_spec(quoted_text(text, apostrophes)).last()
            == quoted_text(text, apostrophes).last(),
    decreases text.len(),
{
    reveal_strlit("\\&");
    if text.len() == 0 {
        assert(text =~= Seq::<char>::empty());
        crate::span::lemma_quoted_text_plain(text, apostrophes);
        lemma_escape_leading_cc_plain(text);
    } else {
        let init = text.drop_last();
        let c = text.last();
        assert(text =~= init.push(c));
        lemma_guarded_text_is_tidy(init, apostrophes);
        assert(text =~= init + seq![c]);
        lemma_quoted_text_concat(init, seq![c], apostrophes);
        lemma_quoted_char_shape(c, apostrophes);
        let before = quoted_text(init, apostrophes);
        let piece = quoted_text(seq![c], apostrophes);
        let whole = quoted_text(text, apostrophes);
        assert(whole == before + piece);
        lemma_escape_leading_cc_guards(whole);
        if before.len() > 0 && before.last() == '\n' && starts_with_cc_spec(piece) {
            let head = before.drop_last();
            assert(before =~= head + seq!['\n']);
            assert(whole =~= head + seq!['\n', c] + Seq::<char>::empty());
            lemma_escape_leading_cc_after_newline(head, c, Seq::<char>::empty());
            lemma_escape_leading_cc_plain(Seq::<char>::empty());
            lemma_escape_leading_cc_plain(seq!['\n']);
            lemma_escape_leading_cc_concat(head, seq!['\n']);
            let marked = "\\&"@ + seq![c];
            assert(escape_leading_cc_spec(whole) =~= escape_leading_cc_spec(before) + marked);
            assert(forall|p: int| !register_at(marked, p));
            lemma_tidy_join(escape_leading_cc_spec(before), marked);
        } else {
            lemma_escape_leading_cc_concat(before, piece);
            lemma_tidy_join(escape_leading_cc_spec(before), piece);
        }
    }
}

/// The text of a span as it is written out is tidy.
proof fn lemma_span_text_is_tidy(text: Seq<char>, at_line_start: bool, apostrophes: Apostrophes)
    ensures
        tidy(span_text(text, at_line_start, apostrophes)),
{
    reveal_strlit("\\&");
    lemma_guarded_text_is_tidy(text, apostrophes);
    let guarded = escape_leading_cc_spec(quoted_text(text, apostrophes));
    if at_line_start && starts_with_cc_spec(guarded) {
        assert(forall|p: int| !register_at("\\&"@, p));
        lemma_tidy_join("\\&"@, guarded);
    }
}

/// A span as it is written out is tidy.
proof fn lemma_span_is_tidy(span: InlineView, at_line_start: bool, apostrophes: Apostrophes)
    ensures
        tidy(span.rendered(at_line_start, apostrophes)),
{
    reveal_strlit("\\fB");
    reveal_strlit("\\fI");
    reveal_strlit("\\fR");
    reveal_strlit(".br\n");
    reveal_strlit("\n.br\n");
    match span {
        InlineView::LineBreak => {
            lemma_plain_is_tidy(".br\n"@);
            lemma_plain_is_tidy("\n.br\n"@);
        },
        InlineView::Roman(text) => {
            lemma_span_text_is_tidy(text, at_line_start, apostrophes);
        },
        InlineView::Italic(text) => {
            lemma_span_text_is_tidy(text, at_line_start, apostrophes);
            assert(forall|p: int| !register_at("\\fI"@, p));
            assert(forall|p: int| !register_at("\\fR"@, p));
            lemma_tidy_join("\\fI"@, span_text(text, at_line_start, apostrophes));
            lemma_tidy_join("\\fI"@ + span_text(text, at_line_start, apostrophes), "\\fR"@);
        },
        InlineView::Bold(text) => {
            lemma_span_text_is_tidy(text, at_line_start, apostrophes);
            assert(forall|p: int| !register_at("\\fB"@, p));
            assert(forall|p: int| !register_at("\\fR"@, p));
            lemma_tidy_join("\\fB"@, span_text(text, at_line_start, apostrophes));
            lemma_tidy_join("\\fB"@ + span_text(text, at_line_start, apostrophes), "\\fR"@);
        },
    }
}

/// The first `n` spans of a text line as they are written out are tidy.
proof fn lemma_spans_are_tidy(spans: Seq<InlineView>, n: int, apostrophes: Apostrophes)
    requires
        0 <= n,
    ensures
        tidy(rendered_spans(spans, n, apostrophes)),
    decreases n,
{
    if n == 0 {
        assert(span_pieces(spans, 0, apostrophes) =~= Seq::<Seq<char>>::empty());
        lemma_plain_is_tidy(Seq::<char>::empty());
    } else {
        lemma_spans_are_tidy(spans, n - 1, apostrophes);
        lemma_rendered_spans_step(spans, n - 1, apostrophes);
        lemma_span_is_tidy(spans[n - 1], n - 1 == 0, apostrophes);
        lemma_tidy_join(
            rendered_spans(spans, n - 1, apostrophes),
            spans[n - 1].rendered(n - 1 == 0, apostrophes),
        );
    }
}

/// Joining texts without backslash yields text without backslash.
proof fn lemma_join_holds_no_backslash(a: Seq<char>, b: Seq<char>)
    requires
        !a.contains('\\'),
        !b.contains('\\'),
    ensures
        !(a + b).contains('\\'),
{
    let s = a + b;
    if s.contains('\\') {
        let i = choose|i: int| 0 <= i < s.len() && s[i] == '\\';
        if i < a.len() {
            assert(a[i] == '\\');
        } else {
            assert(b[i - a.len()] == '\\');
        }
    }
}

/// The arguments of a control line as they are written out hold no
/// backslash where the arguments hold none.
proof fn lemma_args_hold_no_backslash(args: Seq<Seq<char>>)
    requires
        forall|j: int| 0 <= j < args.len() ==> !(#[trigger] args[j]).contains('\\'),
    ensures
        !rendered_args(args).contains('\\'),
    decreases args.len(),
{
    reveal_strlit(" ");
    reveal_strlit("\"");
    if args.len() == 0 {
        assert(args.map_values(|arg: Seq<char>| rendered_arg(arg)) =~= Seq::<
            Seq<char>,
        >::empty());
        assert(rendered_args(args) =~= Seq::<char>::empty());
    } else {
        let init = args.drop_last();
        let arg = args.last();
        assert(args =~= init.push(arg));
        lemma_args_hold_no_backslash(init);
        init.lemma_flat_map_push(|arg: Seq<char>| rendered_arg(arg), arg);
        let space = " "@;
        let quote = "\""@;
        assert(!space.contains('\\')) by {
            if space.contains('\\') {
                let i = choose|i: int| 0 <= i < space.len() && space[i] == '\\';
                assert(space[i] == '\\');
            }
        }
        assert(!quote.contains('\\')) by {
            if quote.contains('\\') {
                let i = choose|i: int| 0 <= i < quote.len() && quote[i] == '\\';
                assert(quote[i] == '\\');
            }
        }
        lemma_join_holds_no_backslash(quote, arg);
        lemma_join_holds_no_backslash(quote + arg, quote);
        lemma_join_holds_no_backslash(space, escape_spaces_spec(arg));
        lemma_join_holds_no_backslash(rendered_args(init), rendered_arg(arg));
    }
}

/// A line as it is written out is tidy: a text line whatever it holds, a
/// control line where it holds no backslash.
proof fn lemma_line_is_tidy(line: LineView, apostrophes: Apostrophes)
    requires
        line matches LineView::Control { name, args } ==> !name.contains('\\') && forall|j: int|
            0 <= j < args.len() ==> !(#[trigger] args[j]).contains('\\'),
    ensures
        tidy(line.rendered(apostrophes)),
{
    reveal_strlit("\n");
    reveal_strlit(".");
    let newline = "\n"@;
    assert(!newline.contains('\\')) by {
        if newline.contains('\\') {
            let i = choose|i: int| 0 <= i < newline.len() && newline[i] == '\\';
            assert(newline[i] == '\\');
        }
    }
    match line {
        LineView::Control { name, args } => {
            let dot = "."@;
            assert(!dot.contains('\\')) by {
                if dot.contains('\\') {
                    let i = choose|i: int| 0 <= i < dot.len() && dot[i] == '\\';
                    assert(dot[i] == '\\');
                }
            }
            lemma_args_hold_no_backslash(args);
            lemma_join_holds_no_backslash(dot, name);
            lemma_join_holds_no_backslash(dot + name, rendered_args(args));
            lemma_join_holds_no_backslash(dot + name + rendered_args(args), newline);
            lemma_plain_is_tidy(line.rendered(apostrophes));
        },
        LineView::Text(spans) => {
            lemma_spans_are_tidy(spans, spans.len() as int, apostrophes);
            lemma_plain_is_tidy(newline);
            lemma_tidy_join(rendered_spans(spans, spans.len() as int, apostrophes), newline);
        },
    }
}

/// The lines of a document as they are written out are tidy, where no
/// control line holds a backslash.
proof fn lemma_lines_are_tidy(lines: Seq<LineView>, apostrophes: Apostrophes)
    requires
        control_lines_hold_no_backslash(lines),
    ensures
        tidy(rendered_lines(lines, apostrophes)),
    decreases lines.len(),
{
    if lines.len() == 0 {
        assert(lines.map_values(|line: LineView| line.rendered(apostrophes)) =~= Seq::<
            Seq<char>,
        >::empty());
        lemma_plain_is_tidy(Seq::<char>::empty());
    } else {
        let init = lines.drop_last();
        let line = lines.last();
        assert(lines =~= init.push(line));
        assert(control_lines_hold_no_backslash(init)) by {
            assert forall|i: int| 0 <= i < init.len() implies (#[trigger] init[i] matches LineView::Control {
                name,
                args,
            } ==> !name.contains('\\') && forall|j: int|
                0 <= j < args.len() ==> !(#[trigger] args[j]).contains('\\')) by {
                assert(init[i] == lines[i]);
            }
        }
        lemma_lines_are_tidy(init, apostrophes);
        init.lemma_flat_map_push(|line: LineView| line.rendered(apostrophes), line);
        assert(line == lines[lines.len() - 1]);
        lemma_line_is_tidy(line, apostrophes);
        lemma_tidy_join(rendered_lines(init, apostrophes), line.rendered(apostrophes));
    }
}

/// The preamble is 35 characters long, and holds one reference to a number
/// register: a space, a backslash and `n`, from its fourth character on.
proof fn lemma_preamble_shape()
    ensures
        APOSTROPHE_PREAMBLE@.len() == 35,
        APOSTROPHE_PREAMBLE@[3] == ' ',
        APOSTROPHE_PREAMBLE@[4] == '\\',
        APOSTROPHE_PREAMBLE@[5] == 'n',
        forall|k: int|
            0 <= k < 34 && #[trigger] APOSTROPHE_PREAMBLE@[k] == '\\' && APOSTROPHE_PREAMBLE@[k
                + 1] == 'n' ==> k == 4,
{
    reveal_strlit(".ie \\n(.g .ds Aq \\(aq\n.el .ds Aq '\n");
    let preamble = APOSTROPHE_PREAMBLE@;
    assert(preamble =~= seq![
        '.', 'i', 'e', ' ', '\\', 'n', '(', '.', 'g', ' ', '.', 'd', 's', ' ', 'A', 'q', ' ', '\\',
        '(', 'a', 'q', '\n', '.', 'e', 'l', ' ', '.', 'd', 's', ' ', 'A', 'q', ' ', '\'', '\n',
    ]);
}

/// The preamble ends with a newline.
proof fn lemma_preamble_tail()
    ensures
        APOSTROPHE_PREAMBLE@[34] == '\n',
{
    reveal_strlit(".ie \\n(.g .ds Aq \\(aq\n.el .ds Aq '\n");
}

/// The preamble stands exactly once in the fully escaped rendering, in
/// front, and nowhere in the raw rendering: for every document whose
/// control lines hold no backslash. A control line may hold any text, the
/// text of the preamble too, and is written as it is.
pub proof fn lemma_preamble_stands_nowhere_else(lines: Seq<LineView>)
    requires
        control_lines_hold_no_backslash(lines),
    ensures
        occurs_at(APOSTROPHE_PREAMBLE@, render_spec(lines), 0),
        forall|at: int| occurs_at(APOSTROPHE_PREAMBLE@, render_spec(lines), at) ==> at == 0,
        forall|at: int| !occurs_at(APOSTROPHE_PREAMBLE@, to_roff_spec(lines), at),
{
    lemma_preamble_shape();
    let preamble = APOSTROPHE_PREAMBLE@;
    let raw = to_roff_spec(lines);
    lemma_lines_are_tidy(lines, Apostrophes::DontHandle);
    assert forall|at: int| !occurs_at(preamble, raw, at) by {
        if occurs_at(preamble, raw, at) {
            let found = raw.subrange(at, at + 35);
            assert(found[3] == raw[at + 3] && found[4] == raw[at + 4] && found[5] == raw[at + 5]);
            assert(register_at(raw, at + 4));
        }
    }
    let body = rendered_lines(lines, Apostrophes::Handle);
    let full = render_spec(lines);
    lemma_lines_are_tidy(lines, Apostrophes::Handle);
    assert(full.subrange(0, 35) =~= preamble);
    assert forall|at: int| occurs_at(preamble, full, at) implies at == 0 by {
        let found = full.subrange(at, at + 35);
        assert(found[3] == full[at + 3] && found[4] == full[at + 4] && found[5] == full[at + 5]);
        if at + 3 >= 35 {
            assert(full[at + 3] == body[at + 3 - 35]);
            assert(full[at + 4] == body[at + 4 - 35]);
            assert(full[at + 5] == body[at + 5 - 35]);
            assert(register_at(body, at + 4 - 35));
        } else if at + 4 >= 35 {
            assert(full[at + 3] == preamble[34]);
            lemma_preamble_tail();
        } else if at + 5 >= 35 {
            assert(full[at + 4] == preamble[34]);
            lemma_preamble_tail();
        } else {
            assert(full[at + 4] == preamble[at + 4]);
            assert(full[at + 5] == preamble[at + 5]);
        }
    }
}

} // verus!
