//! What the renderers share: two functions of the standard library whose
//! behaviour is taken on trust, small helpers on strings, and facts about
//! sequences.

use vstd::prelude::*;
use vstd::seq_lib::lemma_flatten_concat;

verus! {

/// Taken on trust of `String::push`: it appends the given character to the
/// end of the string and changes nothing else of it.
pub assume_specification[ String::push ](s: &mut String, c: char)
    ensures
        final(s)@ == old(s)@.push(c),
;

/// The upper-case form of a text, as `str::to_uppercase` gives it: Unicode's
/// mapping of each character, which may put several characters in the place
/// of one.
pub uninterp spec fn uppercase(text: Seq<char>) -> Seq<char>;

/// Taken on trust of `str::to_uppercase`: it returns the upper-case form of
/// the text as a new string, and that form depends on the characters of the
/// text alone, not on a locale or on anything else. Nothing is claimed of
/// what the form is.
pub assume_specification[ str::to_uppercase ](text: &str) -> (upper: String)
    ensures
        upper@ == uppercase(text@),
;

/// A string of its own for each text of a slice, in the same order.
pub fn owned_strings(texts: &[&str]) -> (owned: Vec<String>)
    ensures
        owned.deep_view() == texts.deep_view(),
{
    let mut owned: Vec<String> = Vec::new();
    let mut i: usize = 0;
    while i < texts.len()
        invariant
            i <= texts.len(),
            owned.len() == i,
            forall|k: int| 0 <= k < i ==> owned[k]@ == texts[k]@,
        decreases texts.len() - i,
    {
        owned.push(texts[i].to_owned());
        i += 1;
    }
    assert(owned.deep_view() =~= texts.deep_view());
    owned
}

/// Whether `text` begins with `prefix`.
pub fn starts_with(text: &str, prefix: &str) -> (b: bool)
    ensures
        b == prefix@.is_prefix_of(text@),
{
    let n = text.unicode_len();
    let mut i: usize = 0;
    for c in it: prefix.chars()
        invariant
            it.seq() == prefix@,
            n == text@.len(),
            i == it.index(),
            i <= n,
            forall|k: int| 0 <= k < i ==> text@[k] == prefix@[k],
    {
        if i >= n {
            return false;
        }
        if text.get_char(i) != c {
            return false;
        }
        i += 1;
    }
    assert(text@.subrange(0, prefix@.len() as int) =~= prefix@);
    true
}

/// Replacing each element by a sequence and joining the results goes through
/// concatenation: the parts can be replaced one by one.
pub proof fn lemma_flat_map_concat<A, B>(x: Seq<A>, y: Seq<A>, f: spec_fn(A) -> Seq<B>)
    ensures
        (x + y).flat_map(f) == x.flat_map(f) + y.flat_map(f),
{
    assert((x + y).map_values(f) =~= x.map_values(f) + y.map_values(f));
    lemma_flatten_concat(x.map_values(f), y.map_values(f));
}

/// Where every element is replaced by itself, nothing changes.
pub proof fn lemma_flat_map_unchanged<A>(s: Seq<A>, f: spec_fn(A) -> Seq<A>)
    requires
        forall|i: int| 0 <= i < s.len() ==> f(#[trigger] s[i]) == seq![s[i]],
    ensures
        s.flat_map(f) == s,
    decreases s.len(),
{
    if s.len() == 0 {
        assert(s.map_values(f) =~= Seq::<Seq<A>>::empty());
    } else {
        let init = s.drop_last();
        lemma_flat_map_unchanged(init, f);
        init.lemma_flat_map_push(f, s.last());
        assert(init.push(s.last()) =~= s);
        assert(init + seq![s.last()] =~= s);
    }
}

} // verus!
