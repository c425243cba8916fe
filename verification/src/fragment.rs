//! Pieces of pre-formatted ROFF text, for assembling a manual page section by
//! section.
//!
//! The helpers here return plain text that already holds its font changes.
//! They are lighter than the structured spans of a [`Roff`](crate::Roff)
//! document: what is escaped, and when, is said of each of them.

use vstd::prelude::*;

verus! {

/// Anything that renders to ROFF text.
///
/// A string renders to itself, and a sequence of fragments to the renderings
/// of its members, one after the other. Other types may join in: each says
/// in `rendered` what text it stands for, and its `render` is held to that.
pub trait Troffable {
    /// The text that the fragment stands for.
    spec fn rendered(&self) -> Seq<char>;

    /// Render the fragment.
    fn render(&self) -> (out: String)
        ensures
            out@ == self.rendered(),
    ;
}

/// The renderings of the fragments, in order, with nothing between them.
pub open spec fn rendered_all<C: Troffable>(fragments: Seq<C>) -> Seq<char> {
    fragments.flat_map(|fragment: C| fragment.rendered())
}

/// Render a sequence of fragments: see [`rendered_all`].
pub fn render_all<C: Troffable>(fragments: &[C]) -> (out: String)
    ensures
        out@ == rendered_all(fragments@),
{
    let mut out = String::new();
    let mut i: usize = 0;
    while i < fragments.len()
        invariant
            i <= fragments.len(),
            out@ == rendered_all(fragments@.take(i as int)),
        decreases fragments.len() - i,
    {
        proof {
            fragments@.lemma_flat_map_take_append(|fragment: C| fragment.rendered(), i as int);
        }
        let piece = fragments[i].render();
        out.append(piece.as_str());
        i += 1;
    }
    proof {
        assert(fragments@.take(fragments@.len() as int) =~= fragments@);
    }
    out
}

impl Troffable for String {
    open spec fn rendered(&self) -> Seq<char> {
        self@
    }

    fn render(&self) -> (out: String) {
        self.clone()
    }
}

impl<'a> Troffable for &'a str {
    open spec fn rendered(&self) -> Seq<char> {
        self@
    }

    fn render(&self) -> (out: String) {
        (*self).to_owned()
    }
}

impl<C: Troffable> Troffable for Vec<C> {
    open spec fn rendered(&self) -> Seq<char> {
        rendered_all(self@)
    }

    fn render(&self) -> (out: String) {
        render_all(self.as_slice())
    }
}

/// What one character becomes where only hyphens are escaped.
pub open spec fn escaped_hyphen_char(c: char) -> Seq<char> {
    if c == '-' {
        "\\-"@
    } else {
        seq![c]
    }
}

/// Text with every hyphen replaced by `\-`, and nothing else changed.
pub open spec fn escape_spec(input: Seq<char>) -> Seq<char> {
    input.flat_map(|c: char| escaped_hyphen_char(c))
}

/// Text in the bold font: `\fB`, the text as it is, `\fP` to go back to the
/// font before.
pub open spec fn bold_spec(input: Seq<char>) -> Seq<char> {
    "\\fB"@ + input + "\\fP"@
}

/// Text in the italic font: `\fI`, the text as it is, `\fP` to go back to the
/// font before.
pub open spec fn italic_spec(input: Seq<char>) -> Seq<char> {
    "\\fI"@ + input + "\\fP"@
}

/// A tagged paragraph: the request `.TP`, the header on a line of its own,
/// then the body.
pub open spec fn list_spec(header: Seq<char>, content: Seq<char>) -> Seq<char> {
    ".TP\n"@ + header + "\n"@ + content
}

/// Wrap text in the escape sequences for the bold font. The text itself is
/// not escaped.
pub fn bold(input: &str) -> (out: String)
    ensures
        out@ == bold_spec(input@),
{
    let mut out = String::from_str("\\fB");
    out.append(input);
    out.append("\\fP");
    out
}

/// Wrap text in the escape sequences for the italic font. The text itself is
/// not escaped.
pub fn italic(input: &str) -> (out: String)
    ensures
        out@ == italic_spec(input@),
{
    let mut out = String::from_str("\\fI");
    out.append(input);
    out.append("\\fP");
    out
}

/// A tagged paragraph, the usual shape for describing one option: the
/// header fragments joined on one line, the body fragments joined below.
pub fn list<C1: Troffable, C2: Troffable>(header: &[C1], content: &[C2]) -> (out: String)
    ensures
        out@ == list_spec(rendered_all(header@), rendered_all(content@)),
{
    let head = render_all(header);
    let body = render_all(content);
    let mut out = String::from_str(".TP\n");
    out.append(head.as_str());
    out.append("\n");
    out.append(body.as_str());
    out
}

/// Replace every hyphen by `\-`. Backslashes and apostrophes are left as
/// they are, so text that holds font changes passes through unharmed.
pub fn escape(input: &str) -> (out: String)
    ensures
        out@ == escape_spec(input@),
{
    let mut out = String::new();
    for c in it: input.chars()
        invariant
            it.seq() == input@,
            out@ == escape_spec(input@.take(it.index() as int)),
    {
        proof {
            input@.lemma_flat_map_take_append(|c: char| escaped_hyphen_char(c), it.index() as int);
        }
        if c == '-' {
            out.append("\\-");
        } else {
            out.push(c);
        }
    }
    proof {
        assert(input@.take(input@.len() as int) =~= input@);
    }
    out
}

} // verus!
