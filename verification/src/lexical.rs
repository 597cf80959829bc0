//! The order of texts: character by character, by the number of each
//! character, a text before every text that it starts.

use vstd::prelude::*;
use crate::order::SortKey;
use crate::text::chars_of;

verus! {

/// `a` comes before `b` in the order of texts.
pub open spec fn text_lt(a: Seq<char>, b: Seq<char>) -> bool
    decreases a.len(),
{
    if b.len() == 0 {
        false
    } else if a.len() == 0 {
        true
    } else if a[0] != b[0] {
        a[0] < b[0]
    } else {
        text_lt(a.drop_first(), b.drop_first())
    }
}

/// No text comes before itself.
pub proof fn lemma_text_lt_irreflexive(a: Seq<char>)
    ensures
        !text_lt(a, a),
    decreases a.len(),
{
    if a.len() > 0 {
        lemma_text_lt_irreflexive(a.drop_first());
    }
}

/// A text that comes before a second that comes before a third comes before
/// the third.
pub proof fn lemma_text_lt_transitive(a: Seq<char>, b: Seq<char>, c: Seq<char>)
    requires
        text_lt(a, b),
        text_lt(b, c),
    ensures
        text_lt(a, c),
    decreases a.len(),
{
    if a.len() > 0 && b.len() > 0 && c.len() > 0 {
        if a[0] == b[0] && b[0] == c[0] {
            lemma_text_lt_transitive(a.drop_first(), b.drop_first(), c.drop_first());
        }
    }
}

/// Of two different texts one comes before the other.
pub proof fn lemma_text_lt_total(a: Seq<char>, b: Seq<char>)
    ensures
        a == b || text_lt(a, b) || text_lt(b, a),
    decreases a.len(),
{
    if a.len() > 0 && b.len() > 0 {
        if a[0] == b[0] {
            lemma_text_lt_total(a.drop_first(), b.drop_first());
            if a.drop_first() == b.drop_first() {
                assert(a =~= seq![a[0]] + a.drop_first());
                assert(b =~= seq![b[0]] + b.drop_first());
            }
        }
    } else if a.len() == 0 && b.len() == 0 {
        assert(a =~= b);
    }
}

/// Whether `a` comes before `b` in the order of texts.
pub fn text_before(a: &Vec<char>, b: &Vec<char>) -> (r: bool)
    ensures
        r == text_lt(a@, b@),
{
    let mut i: usize = 0;
    assert(a@.skip(0) =~= a@);
    assert(b@.skip(0) =~= b@);
    while i < a.len() && i < b.len()
        invariant
            i <= a.len(),
            i <= b.len(),
            text_lt(a@, b@) == text_lt(a@.skip(i as int), b@.skip(i as int)),
        decreases a.len() - i,
    {
        let x = a[i];
        let y = b[i];
        proof {
            assert(a@.skip(i as int)[0] == x);
            assert(b@.skip(i as int)[0] == y);
            assert(a@.skip(i as int).drop_first() =~= a@.skip(i + 1));
            assert(b@.skip(i as int).drop_first() =~= b@.skip(i + 1));
        }
        if x != y {
            return x < y;
        }
        i = i + 1;
    }
    i < b.len()
}

/// A text as something to order by.
#[derive(Debug, PartialEq, Eq)]
pub struct TextKey {
    pub text: Vec<char>,
}

impl TextKey {
    /// The key of a text.
    pub fn new(text: &str) -> (r: TextKey)
        ensures
            r.text@ == text@,
    {
        TextKey { text: chars_of(text) }
    }
}

impl SortKey for TextKey {
    open spec fn precedes(self, other: Self) -> bool {
        text_lt(self.text@, other.text@)
    }

    fn is_before(&self, other: &Self) -> (r: bool) {
        text_before(&self.text, &other.text)
    }

    proof fn lemma_precedes_is_an_order(a: Self, b: Self, c: Self) {
        lemma_text_lt_irreflexive(a.text@);
        if text_lt(a.text@, b.text@) && text_lt(b.text@, c.text@) {
            lemma_text_lt_transitive(a.text@, b.text@, c.text@);
        }
        if !text_lt(a.text@, b.text@) && !text_lt(b.text@, c.text@) && text_lt(a.text@, c.text@) {
            lemma_text_lt_total(a.text@, b.text@);
            if a.text@ != b.text@ {
                lemma_text_lt_transitive(b.text@, a.text@, c.text@);
            }
        }
    }
}

} // verus!
