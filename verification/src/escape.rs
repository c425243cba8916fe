//! The escaping rules that keep caller text from being read as ROFF syntax.
//!
//! Text is stored as the caller gave it; these functions are applied only
//! when a document is rendered.

use crate::text::{lemma_flat_map_concat, lemma_flat_map_unchanged};
use vstd::prelude::*;
use vstd::seq_lib::lemma_flatten_concat;

verus! {

/// The two characters that make a ROFF processor read a line as a control
/// line when they open it.
pub open spec fn is_control_char(c: char) -> bool {
    c == '.' || c == '\''
}

/// A line that opens with a control character.
pub open spec fn starts_with_cc_spec(line: Seq<char>) -> bool {
    line.len() > 0 && is_control_char(line[0])
}

/// What one character of running text becomes: a backslash is doubled and a
/// hyphen gets a backslash in front; every other character stands for itself.
pub open spec fn escaped_inline_char(c: char) -> Seq<char> {
    if c == '\\' {
        "\\\\"@
    } else if c == '-' {
        "\\-"@
    } else {
        seq![c]
    }
}

/// Running text with every backslash and hyphen escaped.
pub open spec fn escape_inline_spec(text: Seq<char>) -> Seq<char> {
    text.flat_map(|c: char| escaped_inline_char(c))
}

/// An apostrophe becomes a use of the string register `Aq`.
pub open spec fn escaped_apostrophe_char(c: char) -> Seq<char> {
    if c == '\'' {
        "\\*(Aq"@
    } else {
        seq![c]
    }
}

/// Text with every apostrophe replaced by a use of the string register `Aq`.
pub open spec fn escape_apostrophes_spec(text: Seq<char>) -> Seq<char> {
    text.flat_map(|c: char| escaped_apostrophe_char(c))
}

/// The character at `i` is a control character directly behind a newline.
pub open spec fn opens_line(s: Seq<char>, i: int) -> bool {
    0 < i < s.len() && s[i - 1] == '\n' && is_control_char(s[i])
}

/// The character at `i`, with the zero-width marker `\&` in front of it where
/// it would otherwise open a line as a control character.
pub open spec fn guarded_char(s: Seq<char>, i: int) -> Seq<char> {
    if opens_line(s, i) {
        "\\&"@.push(s[i])
    } else {
        seq![s[i]]
    }
}

/// What each of the first `n` characters of `s` is replaced by.
pub open spec fn guarded_pieces(s: Seq<char>, n: int) -> Seq<Seq<char>> {
    Seq::new(n as nat, |i: int| guarded_char(s, i))
}

/// The first `n` characters of `s`, each guarded where it opens a line.
pub open spec fn guarded_prefix(s: Seq<char>, n: int) -> Seq<char> {
    guarded_pieces(s, n).flatten()
}

/// Text in which no embedded newline is directly followed by a control
/// character: `\&` is put between the two.
pub open spec fn escape_leading_cc_spec(s: Seq<char>) -> Seq<char> {
    guarded_prefix(s, s.len() as int)
}

/// A control-line argument as it is written out: in double quotes when it
/// holds a space, as it is otherwise.
pub open spec fn escape_spaces_spec(w: Seq<char>) -> Seq<char> {
    if w.contains(' ') {
        "\""@ + w + "\""@
    } else {
        w
    }
}

/// Does the line start with a control character?
pub fn starts_with_cc(line: &str) -> (b: bool)
    ensures
        b == starts_with_cc_spec(line@),
{
    if line.is_empty() {
        false
    } else {
        let c = line.get_char(0);
        c == '.' || c == '\''
    }
}

/// Quote a control-line argument that holds a space. A double quote inside
/// the argument is not escaped: the format offers no way to do so.
pub fn escape_spaces(w: &str) -> (out: String)
    ensures
        out@ == escape_spaces_spec(w@),
{
    let mut has_space = false;
    for c in it: w.chars()
        invariant
            it.seq() == w@,
            has_space == w@.take(it.index() as int).contains(' '),
    {
        proof {
            let k = it.index() as int;
            assert(w@.take(k + 1) =~= w@.take(k).push(c));
            if w@.take(k).contains(' ') {
                let j = choose|j: int| 0 <= j < k && w@.take(k)[j] == ' ';
                assert(w@.take(k + 1)[j] == ' ');
            }
        }
        if c == ' ' {
            has_space = true;
            proof {
                assert(w@.take(it.index() + 1)[it.index() as int] == ' ');
            }
        }
    }
    proof {
        assert(w@.take(w@.len() as int) =~= w@);
    }
    if has_space {
        let mut out = String::new();
        out.append("\"");
        out.append(w);
        out.append("\"");
        assert(out@ =~= "\""@ + w@ + "\""@);
        out
    } else {
        w.to_owned()
    }
}

/// Keep a period or an apostrophe that follows an embedded newline from
/// opening a control line. This is needed for apostrophes whether or not they
/// are also replaced for typesetting.
pub fn escape_leading_cc(s: &str) -> (out: String)
    ensures
        out@ == escape_leading_cc_spec(s@),
{
    let mut out = String::new();
    let mut after_newline = false;
    for c in it: s.chars()
        invariant
            it.seq() == s@,
            out@ == guarded_prefix(s@, it.index() as int),
            after_newline == (it.index() > 0 && s@[it.index() - 1] == '\n'),
    {
        proof {
            lemma_guarded_prefix_step(s@, it.index() as int);
        }
        if after_newline && (c == '.' || c == '\'') {
            out.append("\\&");
        }
        out.push(c);
        after_newline = c == '\n';
    }
    out
}

/// Escape backslashes and hyphens, the two characters a ROFF processor would
/// otherwise interpret inside a text line. Apostrophes are left alone.
pub fn escape_inline(text: &str) -> (out: String)
    ensures
        out@ == escape_inline_spec(text@),
{
    let mut out = String::new();
    for c in it: text.chars()
        invariant
            it.seq() == text@,
            out@ == escape_inline_spec(text@.take(it.index() as int)),
    {
        proof {
            text@.lemma_flat_map_take_append(|c: char| escaped_inline_char(c), it.index() as int);
        }
        if c == '\\' {
            out.append("\\\\");
        } else if c == '-' {
            out.append("\\-");
        } else {
            out.push(c);
        }
    }
    proof {
        assert(text@.take(text@.len() as int) =~= text@);
    }
    out
}

/// Replace each apostrophe by a use of the string register `Aq`, which the
/// preamble of a rendered document defines.
pub fn escape_apostrophes(text: &str) -> (out: String)
    ensures
        out@ == escape_apostrophes_spec(text@),
{
    let mut out = String::new();
    for c in it: text.chars()
        invariant
            it.seq() == text@,
            out@ == escape_apostrophes_spec(text@.take(it.index() as int)),
    {
        proof {
            text@.lemma_flat_map_take_append(
                |c: char| escaped_apostrophe_char(c),
                it.index() as int,
            );
        }
        if c == '\'' {
            out.append("\\*(Aq");
        } else {
            out.push(c);
        }
    }
    proof {
        assert(text@.take(text@.len() as int) =~= text@);
    }
    out
}

/// Escaping goes through concatenation: the escaped form of a text is made
/// of the escaped forms of its parts.
pub proof fn lemma_escape_inline_concat(a: Seq<char>, b: Seq<char>)
    ensures
        escape_inline_spec(a + b) == escape_inline_spec(a) + escape_inline_spec(b),
{
    lemma_flat_map_concat(a, b, |c: char| escaped_inline_char(c));
}

/// Every hyphen is replaced by `\-`, wherever in the text it stands, and
/// what stands around it is escaped as it would be alone.
pub proof fn lemma_escape_inline_hyphen(before: Seq<char>, after: Seq<char>)
    ensures
        escape_inline_spec(before + seq!['-'] + after) == escape_inline_spec(before) + "\\-"@
            + escape_inline_spec(after),
{
    lemma_escape_inline_concat(before + seq!['-'], after);
    lemma_escape_inline_concat(before, seq!['-']);
    seq!['-'].lemma_flat_map_singleton(|c: char| escaped_inline_char(c));
}

/// Every backslash is doubled, wherever in the text it stands, and what
/// stands around it is escaped as it would be alone.
pub proof fn lemma_escape_inline_backslash(before: Seq<char>, after: Seq<char>)
    ensures
        escape_inline_spec(before + seq!['\\'] + after) == escape_inline_spec(before) + "\\\\"@
            + escape_inline_spec(after),
{
    lemma_escape_inline_concat(before + seq!['\\'], after);
    lemma_escape_inline_concat(before, seq!['\\']);
    seq!['\\'].lemma_flat_map_singleton(|c: char| escaped_inline_char(c));
}

/// Text without backslash and hyphen is left as it is.
pub proof fn lemma_escape_inline_plain(text: Seq<char>)
    requires
        !text.contains('\\'),
        !text.contains('-'),
    ensures
        escape_inline_spec(text) == text,
{
    lemma_flat_map_unchanged(text, |c: char| escaped_inline_char(c));
}

/// Replacing apostrophes goes through concatenation.
pub proof fn lemma_escape_apostrophes_concat(a: Seq<char>, b: Seq<char>)
    ensures
        escape_apostrophes_spec(a + b) == escape_apostrophes_spec(a) + escape_apostrophes_spec(b),
{
    lemma_flat_map_concat(a, b, |c: char| escaped_apostrophe_char(c));
}

/// Text without apostrophe is left as it is.
pub proof fn lemma_escape_apostrophes_plain(text: Seq<char>)
    requires
        !text.contains('\''),
    ensures
        escape_apostrophes_spec(text) == text,
{
    lemma_flat_map_unchanged(text, |c: char| escaped_apostrophe_char(c));
}

/// Guarding the first `n + 1` characters adds the piece for the character at
/// `n` to what guarding the first `n` gave.
proof fn lemma_guarded_prefix_step(s: Seq<char>, n: int)
    requires
        0 <= n,
    ensures
        guarded_prefix(s, n + 1) == guarded_prefix(s, n) + guarded_char(s, n),
{
    assert(guarded_pieces(s, n + 1) =~= guarded_pieces(s, n).push(guarded_char(s, n)));
    guarded_pieces(s, n).lemma_flatten_push(guarded_char(s, n));
}

/// Guarding keeps the first and the last character of a prefix in place, and
/// leaves no control character directly behind a newline.
proof fn lemma_guarded_prefix_shape(s: Seq<char>, n: int)
    requires
        0 <= n <= s.len(),
    ensures
        n == 0 ==> guarded_prefix(s, n).len() == 0,
        n > 0 ==> guarded_prefix(s, n).len() >= n && guarded_prefix(s, n)[0] == s[0]
            && guarded_prefix(s, n).last() == s[n - 1],
        forall|i: int| !opens_line(guarded_prefix(s, n), i),
    decreases n,
{
    reveal_strlit("\\&");
    if n == 0 {
        assert(guarded_pieces(s, 0) =~= Seq::<Seq<char>>::empty());
    } else {
        lemma_guarded_prefix_shape(s, n - 1);
        lemma_guarded_prefix_step(s, n - 1);
        let out = guarded_prefix(s, n - 1);
        let piece = guarded_char(s, n - 1);
        let grown = guarded_prefix(s, n);
        assert(grown == out + piece);
        assert forall|i: int| !opens_line(grown, i) by {
            if 0 < i < grown.len() {
                if i < out.len() {
                    assert(!opens_line(out, i));
                    assert(grown[i] == out[i] && grown[i - 1] == out[i - 1]);
                } else if opens_line(s, n - 1) {
                    assert(piece =~= seq!['\\', '&', s[n - 1]]);
                } else {
                    assert(piece =~= seq![s[n - 1]]);
                }
            }
        }
    }
}

/// The central promise of the renderer on embedded newlines: in guarded
/// text, no newline is directly followed by a period or an apostrophe.
pub proof fn lemma_escape_leading_cc_guards(s: Seq<char>)
    ensures
        forall|i: int| !opens_line(escape_leading_cc_spec(s), i),
        escape_leading_cc_spec(s).len() >= s.len(),
        s.len() > 0 ==> escape_leading_cc_spec(s)[0] == s[0] && escape_leading_cc_spec(s).last()
            == s.last(),
{
    lemma_guarded_prefix_shape(s, s.len() as int);
}

/// Text in which no newline is directly followed by a control character is
/// left as it is.
pub proof fn lemma_escape_leading_cc_plain(s: Seq<char>)
    requires
        forall|i: int| !opens_line(s, i),
    ensures
        escape_leading_cc_spec(s) == s,
{
    let pieces = guarded_pieces(s, s.len() as int);
    let id = |c: char| seq![c];
    assert(pieces =~= s.map_values(id)) by {
        assert forall|i: int| 0 <= i < s.len() implies pieces[i] == seq![s[i]] by {
            assert(!opens_line(s, i));
        }
    }
    lemma_flat_map_unchanged(s, id);
}

/// Guarding goes through concatenation wherever the seam is not itself a
/// newline followed by a control character.
pub proof fn lemma_escape_leading_cc_concat(a: Seq<char>, b: Seq<char>)
    requires
        !(a.len() > 0 && a.last() == '\n' && starts_with_cc_spec(b)),
    ensures
        escape_leading_cc_spec(a + b) == escape_leading_cc_spec(a) + escape_leading_cc_spec(b),
{
    let s = a + b;
    let left = guarded_pieces(a, a.len() as int);
    let right = guarded_pieces(b, b.len() as int);
    assert(guarded_pieces(s, s.len() as int) =~= left + right) by {
        assert forall|i: int| 0 <= i < s.len() implies guarded_pieces(s, s.len() as int)[i] == (
        left + right)[i] by {
            if i < a.len() {
                assert(s[i] == a[i]);
                assert(opens_line(s, i) == opens_line(a, i));
            } else {
                let j = i - a.len();
                assert(s[i] == b[j]);
                if j > 0 {
                    assert(s[i - 1] == b[j - 1]);
                } else if a.len() > 0 {
                    assert(s[i - 1] == a.last());
                }
                assert(opens_line(s, i) == opens_line(b, j));
            }
        }
    }
    lemma_flatten_concat(left, right);
}

/// A period or an apostrophe directly behind an embedded newline gets `\&`
/// in front of it, wherever in the text the two stand, and what stands
/// around them is guarded as it would be alone.
pub proof fn lemma_escape_leading_cc_after_newline(before: Seq<char>, c: char, after: Seq<char>)
    requires
        is_control_char(c),
    ensures
        escape_leading_cc_spec(before + seq!['\n', c] + after) == escape_leading_cc_spec(before)
            + seq!['\n'] + "\\&"@ + seq![c] + escape_leading_cc_spec(after),
{
    reveal_strlit("\\&");
    let pair = seq!['\n', c];
    lemma_escape_leading_cc_concat(before + pair, after);
    lemma_escape_leading_cc_concat(before, pair);
    assert(escape_leading_cc_spec(pair) == seq!['\n'] + "\\&"@ + seq![c]) by {
        lemma_guarded_prefix_step(pair, 0);
        lemma_guarded_prefix_step(pair, 1);
        assert(guarded_pieces(pair, 0) =~= Seq::<Seq<char>>::empty());
        assert(opens_line(pair, 1));
        assert(guarded_prefix(pair, 2) =~= seq!['\n'] + "\\&"@ + seq![c]);
    }
}

} // verus!
