//! Documents: an ordered sequence of lines, and the two ways to build one.

use crate::inline::{Inline, InlineView};
use crate::line::{
    control_line_at, lemma_line_ends_with_newline, lemma_text_line_holds_only_line_breaks,
    line_break_at, unguarded_seam, Line, LineView,
};
use crate::span::Apostrophes;
use crate::text::{lemma_flat_map_concat, owned_strings};
use vstd::prelude::*;

verus! {

/// The preamble that opens every fully escaped rendering.
///
/// It defines the string register `Aq` to hold an apostrophe: the glyph `aq`
/// where the processor says it is groff, a plain apostrophe elsewhere. There
/// seems to be no other way to get an apostrophe out of all the various ROFF
/// implementations; left alone, it may be typeset as a right single quote,
/// which is not what words like "don't" want.
pub const APOSTROPHE_PREAMBLE: &'static str = ".ie \\n(.g .ds Aq \\(aq\n.el .ds Aq '\n";

/// The lines of a document as they are written out, one after the other.
pub open spec fn rendered_lines(lines: Seq<LineView>, apostrophes: Apostrophes) -> Seq<char> {
    lines.flat_map(|line: LineView| line.rendered(apostrophes))
}

/// The fully escaped rendering of a document: the preamble, once, and the
/// lines with apostrophes handled.
pub open spec fn render_spec(lines: Seq<LineView>) -> Seq<char> {
    APOSTROPHE_PREAMBLE@ + rendered_lines(lines, Apostrophes::Handle)
}

/// The raw rendering of a document: the lines with apostrophes left alone,
/// and nothing else.
pub open spec fn to_roff_spec(lines: Seq<LineView>) -> Seq<char> {
    rendered_lines(lines, Apostrophes::DontHandle)
}

/// A ROFF document, consisting of lines.
///
/// Lines are either control lines (built-in requests, or invocations of
/// macros) or text lines. A document grows by appending only, and its lines
/// are rendered in the order in which they were appended.
#[derive(Debug, PartialEq, Eq)]
pub struct Roff {
    lines: Vec<Line>,
}

impl View for Roff {
    type V = Seq<LineView>;

    closed spec fn view(&self) -> Seq<LineView> {
        self.lines.deep_view()
    }
}

impl DeepView for Roff {
    type V = Seq<LineView>;

    open spec fn deep_view(&self) -> Seq<LineView> {
        self@
    }
}

impl Clone for Roff {
    fn clone(&self) -> (copy: Roff)
        ensures
            copy@ == self@,
    {
        let copy = Roff { lines: self.lines.clone() };
        assert(copy.lines.deep_view() =~= self.lines.deep_view());
        copy
    }
}

impl Default for Roff {
    fn default() -> (doc: Roff)
        ensures
            doc@ == Seq::<LineView>::empty(),
    {
        Roff::new()
    }
}

/// The conversion is described by the `ensures` of `from` itself, over the
/// view of the document.
impl vstd::std_specs::convert::FromSpecImpl<Inline> for Roff {
    open spec fn obeys_from_spec() -> bool {
        false
    }

    open spec fn from_spec(inline: Inline) -> Roff {
        arbitrary()
    }
}

/// A single inline element is a document of one text line.
impl From<Inline> for Roff {
    fn from(inline: Inline) -> (doc: Roff)
        ensures
            doc@ == seq![LineView::Text(seq![inline@])],
    {
        let ghost span = inline@;
        let mut doc = Roff::new();
        let mut inlines: Vec<Inline> = Vec::new();
        inlines.push(inline);
        assert(inlines.deep_view() =~= seq![span]);
        doc.text(inlines);
        assert(doc@ =~= seq![LineView::Text(seq![span])]);
        doc
    }
}

/// The conversion is described by the `ensures` of `from` itself, over the
/// view of the document.
impl<'a> vstd::std_specs::convert::FromSpecImpl<&'a str> for Roff {
    open spec fn obeys_from_spec() -> bool {
        false
    }

    open spec fn from_spec(text: &'a str) -> Roff {
        arbitrary()
    }
}

/// A plain piece of text is a document of one text line, in the roman font.
impl<'a> From<&'a str> for Roff {
    fn from(text: &'a str) -> (doc: Roff)
        ensures
            doc@ == seq![LineView::Text(seq![InlineView::Roman(text@)])],
    {
        Roff::from(crate::inline::roman(text))
    }
}

impl Roff {
    /// An empty document.
    pub fn new() -> (doc: Roff)
        ensures
            doc@ == Seq::<LineView>::empty(),
    {
        let doc = Roff { lines: Vec::new() };
        assert(doc.lines.deep_view() =~= Seq::<LineView>::empty());
        doc
    }

    /// Append a control line.
    ///
    /// The line consists of the name of a built-in request or macro and some
    /// number of arguments. An argument that contains a space is enclosed in
    /// double quotation marks when the line is rendered.
    pub fn control(&mut self, name: &str, args: &[&str]) -> (doc: &mut Roff)
        ensures
            doc@ == old(self)@.push(LineView::Control { name: name@, args: args.deep_view() }),
            *final(self) == *final(doc),
    {
        let line = Line::control(name.to_owned(), owned_strings(args));
        let ghost before = self.lines.deep_view();
        let ghost appended = line@;
        self.lines.push(line);
        assert(self.lines.deep_view() =~= before.push(appended));
        self
    }

    /// Append a text line.
    ///
    /// The line is rendered in a way that keeps it from being read as a
    /// control line: the caller need not see to it that it does not start
    /// with a period or an apostrophe.
    pub fn text(&mut self, inlines: Vec<Inline>) -> (doc: &mut Roff)
        ensures
            doc@ == old(self)@.push(LineView::Text(inlines.deep_view())),
            *final(self) == *final(doc),
    {
        let line = Line::text(inlines);
        let ghost before = self.lines.deep_view();
        let ghost appended = line@;
        self.lines.push(line);
        assert(self.lines.deep_view() =~= before.push(appended));
        self
    }

    /// The lines of the document, rendered in order under one policy.
    fn render_lines(&self, out: &mut String, apostrophes: Apostrophes)
        ensures
            final(out)@ == old(out)@ + rendered_lines(self@, apostrophes),
    {
        let ghost before = out@;
        let mut i: usize = 0;
        while i < self.lines.len()
            invariant
                i <= self.lines.len(),
                out@ == before + rendered_lines(self@.take(i as int), apostrophes),
            decreases self.lines.len() - i,
        {
            proof {
                self@.lemma_flat_map_take_append(
                    |line: LineView| line.rendered(apostrophes),
                    i as int,
                );
            }
            self.lines[i].render(out, apostrophes);
            i += 1;
        }
        proof {
            assert(self@.take(self@.len() as int) =~= self@);
        }
    }

    /// The number of lines in the document.
    pub fn len(&self) -> (n: usize)
        ensures
            n == self@.len(),
    {
        self.lines.len()
    }

    /// Whether the document holds no line.
    pub fn is_empty(&self) -> (b: bool)
        ensures
            b == (self@.len() == 0),
    {
        self.lines.len() == 0
    }

    /// The line at index `i`, counted from 0 in the order of appending.
    pub fn line(&self, i: usize) -> (line: &Line)
        requires
            i < self@.len(),
        ensures
            line@ == self@[i as int],
    {
        &self.lines[i]
    }

    /// Append the lines of another document, in their order.
    pub fn append(&mut self, other: Roff)
        ensures
            final(self)@ == old(self)@ + other@,
    {
        let ghost before = self.lines.deep_view();
        let ghost added = other.lines.deep_view();
        let mut other = other;
        self.lines.append(&mut other.lines);
        assert(self.lines.deep_view() =~= before + added);
    }

    /// Assemble one document from many: the lines of the first, then those of
    /// the second, and so on, each document's own order kept.
    pub fn concat(docs: Vec<Roff>) -> (doc: Roff)
        ensures
            doc@ == docs.deep_view().flatten(),
    {
        let ghost parts = docs.deep_view();
        let mut doc = Roff::new();
        for part in it: docs
            invariant
                it.seq().len() == parts.len(),
                forall|k: int| 0 <= k < parts.len() ==> it.seq()[k]@ == parts[k],
                doc@ == parts.take(it.index() as int).flatten(),
        {
            proof {
                let k = it.index() as int;
                assert(parts.take(k + 1) =~= parts.take(k).push(parts[k]));
                parts.take(k).lemma_flatten_push(parts[k]);
            }
            doc.append(part);
        }
        proof {
            assert(parts.take(parts.len() as int) =~= parts);
        }
        doc
    }

    /// Render as ROFF source text that can be fed to a ROFF implementation:
    /// the preamble, then every line with apostrophes handled.
    pub fn render(&self) -> (out: String)
        ensures
            out@ == render_spec(self@),
    {
        let mut out = String::new();
        out.append(APOSTROPHE_PREAMBLE);
        self.render_lines(&mut out, Apostrophes::Handle);
        out
    }

    /// Render without handling apostrophes specially, and without preamble.
    ///
    /// You probably want [`render`](Roff::render) instead. Without special
    /// handling, apostrophes may be typeset as right single quotes, also in
    /// words like "don't". This method is there for completeness and for
    /// testing.
    pub fn to_roff(&self) -> (out: String)
        ensures
            out@ == to_roff_spec(self@),
    {
        let mut out = String::new();
        self.render_lines(&mut out, Apostrophes::DontHandle);
        out
    }

    /// Write the fully escaped rendering, as UTF-8, to the end of a byte
    /// buffer. What the buffer held before stays in front.
    pub fn to_writer(&self, w: &mut Vec<u8>)
        ensures
            final(w)@ == old(w)@ + vstd::utf8::encode_utf8(render_spec(self@)),
    {
        let text = self.render();
        let mut bytes = text.as_str().as_bytes_vec();
        w.append(&mut bytes);
    }
}

/// Build a [`Roff`] by chaining calls that each take and return the builder.
///
/// The appended lines are those that the same calls on a `Roff` append. This
/// style serves where no mutable local can be held across the chain, such as
/// in a fold over an iterator.
pub struct RoffBuilder {
    roff: Roff,
}

impl View for RoffBuilder {
    type V = Seq<LineView>;

    closed spec fn view(&self) -> Seq<LineView> {
        self.roff@
    }
}

impl Default for RoffBuilder {
    fn default() -> (builder: RoffBuilder)
        ensures
            builder@ == Seq::<LineView>::empty(),
    {
        RoffBuilder { roff: Roff::new() }
    }
}

impl RoffBuilder {
    /// Append a control line: see [`Roff::control`].
    pub fn control(self, name: &str, args: &[&str]) -> (builder: RoffBuilder)
        ensures
            builder@ == self@.push(LineView::Control { name: name@, args: args.deep_view() }),
    {
        let mut builder = self;
        builder.roff.control(name, args);
        builder
    }

    /// Append a text line: see [`Roff::text`].
    pub fn text(self, inlines: Vec<Inline>) -> (builder: RoffBuilder)
        ensures
            builder@ == self@.push(LineView::Text(inlines.deep_view())),
    {
        let mut builder = self;
        builder.roff.text(inlines);
        builder
    }

    /// Return the built document.
    pub fn build(self) -> (doc: Roff)
        ensures
            doc@ == self@,
    {
        self.roff
    }
}

/// Append order is render order: a line appended to a document is rendered
/// behind all that the document held, and changes nothing of it.
pub proof fn lemma_appended_line_renders_last(
    lines: Seq<LineView>,
    line: LineView,
    apostrophes: Apostrophes,
)
    ensures
        rendered_lines(lines.push(line), apostrophes) == rendered_lines(lines, apostrophes)
            + line.rendered(apostrophes),
{
    lines.lemma_flat_map_push(|line: LineView| line.rendered(apostrophes), line);
}

/// A document of one line is rendered as that line.
pub proof fn lemma_single_line(line: LineView, apostrophes: Apostrophes)
    ensures
        rendered_lines(seq![line], apostrophes) == line.rendered(apostrophes),
{
    seq![line].lemma_flat_map_singleton(|line: LineView| line.rendered(apostrophes));
}

/// The lines of two documents put together are rendered as the lines of the
/// first followed by the lines of the second, under either policy.
pub proof fn lemma_concat_renders_in_order(
    first: Seq<LineView>,
    second: Seq<LineView>,
    apostrophes: Apostrophes,
)
    ensures
        rendered_lines(first + second, apostrophes) == rendered_lines(first, apostrophes)
            + rendered_lines(second, apostrophes),
{
    lemma_flat_map_concat(first, second, |line: LineView| line.rendered(apostrophes));
}

/// The raw rendering of two documents put together is the raw rendering of
/// the first followed by that of the second.
pub proof fn lemma_concat_to_roff(first: Seq<LineView>, second: Seq<LineView>)
    ensures
        to_roff_spec(first + second) == to_roff_spec(first) + to_roff_spec(second),
{
    lemma_concat_renders_in_order(first, second, Apostrophes::DontHandle);
}

/// The fully escaped rendering of two documents put together is that of the
/// first followed by that of the second without its preamble: the preamble
/// stands once, in front.
pub proof fn lemma_concat_render(first: Seq<LineView>, second: Seq<LineView>)
    ensures
        render_spec(first + second) == render_spec(first) + render_spec(second).skip(
            APOSTROPHE_PREAMBLE@.len() as int,
        ),
{
    lemma_concat_renders_in_order(first, second, Apostrophes::Handle);
    assert(render_spec(second).skip(APOSTROPHE_PREAMBLE@.len() as int) =~= rendered_lines(
        second,
        Apostrophes::Handle,
    ));
    assert(render_spec(first + second) =~= render_spec(first) + rendered_lines(
        second,
        Apostrophes::Handle,
    ));
}

/// Many documents put together are rendered as each of them in turn.
pub proof fn lemma_concat_all_renders_in_order(parts: Seq<Seq<LineView>>, apostrophes: Apostrophes)
    ensures
        rendered_lines(parts.flatten(), apostrophes) == parts.flat_map(
            |part: Seq<LineView>| rendered_lines(part, apostrophes),
        ),
    decreases parts.len(),
{
    let each = |part: Seq<LineView>| rendered_lines(part, apostrophes);
    if parts.len() == 0 {
        assert(parts.map_values(each) =~= Seq::<Seq<char>>::empty());
        assert(parts.flatten() =~= Seq::<LineView>::empty());
        assert(Seq::<LineView>::empty().map_values(|line: LineView| line.rendered(apostrophes))
            =~= Seq::<Seq<char>>::empty());
    } else {
        let init = parts.drop_last();
        let last = parts.last();
        assert(parts =~= init.push(last));
        lemma_concat_all_renders_in_order(init, apostrophes);
        init.lemma_flatten_push(last);
        init.lemma_flat_map_push(each, last);
        lemma_concat_renders_in_order(init.flatten(), last, apostrophes);
    }
}

/// The fully escaped rendering opens with the preamble, which is two lines,
/// and holds behind it the lines of the document and nothing else. The raw
/// rendering holds the lines of the document and nothing else: of an empty
/// document it is empty.
pub proof fn lemma_preamble_stands_once_in_front(lines: Seq<LineView>)
    ensures
        APOSTROPHE_PREAMBLE@ == ".ie \\n(.g .ds Aq \\(aq\n"@ + ".el .ds Aq '\n"@,
        APOSTROPHE_PREAMBLE@.is_prefix_of(render_spec(lines)),
        render_spec(lines).skip(APOSTROPHE_PREAMBLE@.len() as int) == rendered_lines(
            lines,
            Apostrophes::Handle,
        ),
        render_spec(Seq::empty()) == APOSTROPHE_PREAMBLE@,
        to_roff_spec(Seq::empty()) == Seq::<char>::empty(),
{
    reveal_strlit(".ie \\n(.g .ds Aq \\(aq\n.el .ds Aq '\n");
    reveal_strlit(".ie \\n(.g .ds Aq \\(aq\n");
    reveal_strlit(".el .ds Aq '\n");
    assert(APOSTROPHE_PREAMBLE@ =~= ".ie \\n(.g .ds Aq \\(aq\n"@ + ".el .ds Aq '\n"@);
    assert(render_spec(lines).skip(APOSTROPHE_PREAMBLE@.len() as int) =~= rendered_lines(
        lines,
        Apostrophes::Handle,
    ));
    let none = Seq::<LineView>::empty();
    assert(none.map_values(|line: LineView| line.rendered(Apostrophes::Handle)) =~= Seq::<
        Seq<char>,
    >::empty());
    assert(none.map_values(|line: LineView| line.rendered(Apostrophes::DontHandle)) =~= Seq::<
        Seq<char>,
    >::empty());
    assert(render_spec(none) =~= APOSTROPHE_PREAMBLE@);
}

/// Where in the rendering of a document the line at index `k` begins.
pub open spec fn line_offset(lines: Seq<LineView>, k: int, apostrophes: Apostrophes) -> int {
    rendered_lines(lines.take(k), apostrophes).len() as int
}

/// The place `at` in the rendering of a document lies in what one of its
/// control lines wrote.
pub open spec fn within_control_line(
    lines: Seq<LineView>,
    apostrophes: Apostrophes,
    at: int,
) -> bool {
    exists|k: int|
        0 <= k < lines.len() && #[trigger] lines[k] is Control && line_offset(
            lines,
            k,
            apostrophes,
        ) <= at < line_offset(lines, k + 1, apostrophes)
}

/// The line is a text line whose span at index `k` stands at an unguarded
/// seam.
pub open spec fn unguarded_seam_in(line: LineView, k: int, apostrophes: Apostrophes) -> bool {
    line matches LineView::Text(spans) && unguarded_seam(spans, k, apostrophes)
}

/// No text line of the document holds a span at an unguarded seam.
pub open spec fn no_unguarded_seam(lines: Seq<LineView>, apostrophes: Apostrophes) -> bool {
    forall|i: int, k: int|
        0 <= i < lines.len() ==> !#[trigger] unguarded_seam_in(lines[i], k, apostrophes)
}

/// A line appended to a document moves no line that the document held.
proof fn lemma_line_offset_after_push(
    lines: Seq<LineView>,
    line: LineView,
    k: int,
    apostrophes: Apostrophes,
)
    requires
        0 <= k <= lines.len(),
    ensures
        line_offset(lines.push(line), k, apostrophes) == line_offset(lines, k, apostrophes),
        line_offset(lines, lines.len() as int, apostrophes) == rendered_lines(
            lines,
            apostrophes,
        ).len(),
{
    assert(lines.push(line).take(k) =~= lines.take(k));
    assert(lines.take(lines.len() as int) =~= lines);
}

/// What lay in a control line of a document lies in it when a line is
/// appended, and what the appended line writes lies in it where it is a
/// control line.
proof fn lemma_within_control_line_after_push(
    lines: Seq<LineView>,
    line: LineView,
    apostrophes: Apostrophes,
    at: int,
)
    requires
        within_control_line(lines, apostrophes, at) || (line is Control && rendered_lines(
            lines,
            apostrophes,
        ).len() <= at < rendered_lines(lines.push(line), apostrophes).len()),
    ensures
        within_control_line(lines.push(line), apostrophes, at),
{
    let grown = lines.push(line);
    let n = lines.len() as int;
    if within_control_line(lines, apostrophes, at) {
        let k = choose|k: int|
            0 <= k < lines.len() && #[trigger] lines[k] is Control && line_offset(
                lines,
                k,
                apostrophes,
            ) <= at < line_offset(lines, k + 1, apostrophes);
        lemma_line_offset_after_push(lines, line, k, apostrophes);
        lemma_line_offset_after_push(lines, line, k + 1, apostrophes);
        assert(grown[k] is Control);
    } else {
        lemma_line_offset_after_push(lines, line, n, apostrophes);
        assert(grown.take(n + 1) =~= grown);
        assert(grown[n] is Control);
    }
}

/// The promise that caller text makes no control line, for a whole
/// document: where no span stands at an unguarded seam, every line of the
/// rendered lines that opens with a control character was written by a
/// control line of the document, or is the `.br` of a line break.
pub proof fn lemma_control_lines_are_the_callers(lines: Seq<LineView>, apostrophes: Apostrophes)
    requires
        no_unguarded_seam(lines, apostrophes),
    ensures
        forall|at: int|
            control_line_at(rendered_lines(lines, apostrophes), at) ==> line_break_at(
                rendered_lines(lines, apostrophes),
                at,
            ) || within_control_line(lines, apostrophes, at),
        rendered_lines(lines, apostrophes).len() > 0 ==> rendered_lines(
            lines,
            apostrophes,
        ).last() == '\n',
    decreases lines.len(),
{
    if lines.len() == 0 {
        assert(lines.map_values(|line: LineView| line.rendered(apostrophes)) =~= Seq::<
            Seq<char>,
        >::empty());
    } else {
        let init = lines.drop_last();
        let line = lines.last();
        assert(lines =~= init.push(line));
        assert(no_unguarded_seam(init, apostrophes)) by {
            assert forall|i: int, k: int| 0 <= i < init.len() implies !#[trigger] unguarded_seam_in(
                init[i],
                k,
                apostrophes,
            ) by {
                assert(!unguarded_seam_in(lines[i], k, apostrophes));
            }
        }
        lemma_control_lines_are_the_callers(init, apostrophes);
        lemma_appended_line_renders_last(init, line, apostrophes);
        lemma_line_ends_with_newline(line, apostrophes);
        let before = rendered_lines(init, apostrophes);
        let piece = line.rendered(apostrophes);
        let out = rendered_lines(lines, apostrophes);
        assert(out == before + piece);
        match line {
            LineView::Text(spans) => {
                assert forall|k: int| !unguarded_seam(spans, k, apostrophes) by {
                    assert(!unguarded_seam_in(lines[lines.len() - 1], k, apostrophes));
                }
                lemma_text_line_holds_only_line_breaks(spans, apostrophes);
            },
            LineView::Control { .. } => {},
        }
        assert forall|at: int| control_line_at(out, at) implies line_break_at(out, at)
            || within_control_line(lines, apostrophes, at) by {
            if at < before.len() {
                assert(control_line_at(before, at));
                if line_break_at(before, at) {
                    assert(out.subrange(at, at + 4) =~= before.subrange(at, at + 4));
                } else {
                    assert(within_control_line(init, apostrophes, at));
                    lemma_within_control_line_after_push(init, line, apostrophes, at);
                }
            } else if line is Control {
                lemma_within_control_line_after_push(init, line, apostrophes, at);
            } else {
                let j = at - before.len();
                assert(out[at] == piece[j]);
                if j > 0 {
                    assert(out[at - 1] == piece[j - 1]);
                }
                assert(control_line_at(piece, j));
                assert(line_break_at(piece, j));
                assert(out.subrange(at, at + 4) =~= piece.subrange(j, j + 4));
            }
        }
    }
}

} // verus!
