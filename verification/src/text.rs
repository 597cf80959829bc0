//! Text as sequences of characters: conversions, substring search, and the
//! string functions that are taken on trust from the standard library and
//! from the `regex` crate.

use vstd::prelude::*;

verus! {

/// `needle` stands in `hay` at position `at`.
pub open spec fn occurs_at(hay: Seq<char>, needle: Seq<char>, at: int) -> bool {
    &&& 0 <= at
    &&& at + needle.len() <= hay.len()
    &&& hay.subrange(at, at + needle.len()) == needle
}

/// `needle` stands somewhere in `hay`.
pub open spec fn has_substring(hay: Seq<char>, needle: Seq<char>) -> bool {
    exists|at: int| occurs_at(hay, needle, at)
}

/// `at` is the first position at which `needle` stands in `hay`.
pub open spec fn is_first_occurrence(hay: Seq<char>, needle: Seq<char>, at: int) -> bool {
    &&& occurs_at(hay, needle, at)
    &&& forall|k: int| 0 <= k < at ==> !occurs_at(hay, needle, k)
}

/// The characters of a string, in order.
pub fn chars_of(s: &str) -> (r: Vec<char>)
    ensures
        r@ == s@,
{
    let mut out: Vec<char> = Vec::new();
    for c in it: s.chars()
        invariant
            it.seq() == s@,
            out@ == it.seq().take(it.index()),
    {
        out.push(c);
    }
    out
}

/// The string made of the given characters.
///
/// Trusted: collects the characters with `String::from_iter`, which appends
/// them one by one, so the string's characters are the given ones.
#[verifier::external_body]
pub(crate) fn string_of(chars: &Vec<char>) -> (r: String)
    ensures
        r@ == chars@,
{
    chars.iter().collect()
}

/// Whether `needle` stands in `hay` at position `at`.
pub fn matches_at(hay: &Vec<char>, needle: &Vec<char>, at: usize) -> (r: bool)
    ensures
        r == occurs_at(hay@, needle@, at as int),
{
    if needle.len() > hay.len() || at > hay.len() - needle.len() {
        return false;
    }
    let mut j: usize = 0;
    while j < needle.len()
        invariant
            j <= needle.len(),
            at + needle.len() <= hay.len(),
            forall|k: int| 0 <= k < j ==> hay[at + k] == needle[k],
        decreases needle.len() - j,
    {
        if hay[at + j] != needle[j] {
            proof {
                let sub = hay@.subrange(at as int, at + needle.len());
                assert(sub[j as int] == hay[at + j]);
            }
            return false;
        }
        j = j + 1;
    }
    assert(hay@.subrange(at as int, at + needle.len()) =~= needle@);
    true
}

/// The first position at which `needle` stands in `hay`, if it stands there
/// at all.
pub fn find_chars(hay: &Vec<char>, needle: &Vec<char>) -> (r: Option<usize>)
    ensures
        r is Some <==> has_substring(hay@, needle@),
        r matches Some(at) ==> is_first_occurrence(hay@, needle@, at as int),
{
    if needle.len() > hay.len() {
        return None;
    }
    let last: usize = hay.len() - needle.len();
    let mut i: usize = 0;
    while i < last
        invariant
            i <= last,
            last == hay.len() - needle.len(),
            forall|k: int| 0 <= k < i ==> !occurs_at(hay@, needle@, k),
        decreases last - i,
    {
        if matches_at(hay, needle, i) {
            return Some(i);
        }
        i = i + 1;
    }
    if matches_at(hay, needle, last) {
        Some(last)
    } else {
        None
    }
}

/// Whether `word` stands somewhere in `hay`.
pub fn has_word(hay: &Vec<char>, word: &str) -> (r: bool)
    ensures
        r == has_substring(hay@, word@),
{
    let w = chars_of(word);
    find_chars(hay, &w).is_some()
}

/// Whether `text` is exactly `word`.
pub fn is_word(text: &Vec<char>, word: &str) -> (r: bool)
    ensures
        r == (text@ == word@),
{
    let w = chars_of(word);
    same_chars(text, &w)
}

/// Whether two texts are the same.
pub fn same_chars(a: &Vec<char>, b: &Vec<char>) -> (r: bool)
    ensures
        r == (a@ == b@),
{
    if a.len() != b.len() {
        return false;
    }
    let mut i: usize = 0;
    while i < a.len()
        invariant
            i <= a.len(),
            a.len() == b.len(),
            forall|k: int| 0 <= k < i ==> a[k] == b[k],
        decreases a.len() - i,
    {
        if a[i] != b[i] {
            assert(a@[i as int] != b@[i as int]);
            return false;
        }
        i = i + 1;
    }
    assert(a@ =~= b@);
    true
}

/// The texts of a list, each once, in the order in which they first occur.
pub open spec fn distinct(texts: Seq<Seq<char>>) -> Seq<Seq<char>>
    decreases texts.len(),
{
    if texts.len() == 0 {
        Seq::empty()
    } else {
        let before = distinct(texts.drop_last());
        if before.contains(texts.last()) {
            before
        } else {
            before.push(texts.last())
        }
    }
}

/// Each text of a list without repetitions occurs in it once, and the list
/// holds the same texts as the list it was made from.
pub proof fn lemma_distinct(texts: Seq<Seq<char>>)
    ensures
        forall|t: Seq<char>| distinct(texts).contains(t) <==> texts.contains(t),
        forall|i: int, j: int|
            0 <= i < j < distinct(texts).len() ==> distinct(texts)[i] != distinct(texts)[j],
    decreases texts.len(),
{
    let now = distinct(texts);
    if texts.len() > 0 {
        let rest = texts.drop_last();
        let before = distinct(rest);
        lemma_distinct(rest);
        assert forall|t: Seq<char>| now.contains(t) <==> texts.contains(t) by {
            assert(before.contains(t) <==> rest.contains(t));
            if texts.contains(t) {
                let i = choose|i: int| 0 <= i < texts.len() && texts[i] == t;
                if i < rest.len() {
                    assert(rest[i] == t);
                }
            }
            if rest.contains(t) {
                let i = choose|i: int| 0 <= i < rest.len() && rest[i] == t;
                assert(texts[i] == t);
            }
            if t == texts.last() {
                assert(texts[texts.len() - 1] == t);
            }
            if before.contains(texts.last()) {
            } else {
                assert(now =~= before.push(texts.last()));
                if before.contains(t) {
                    let i = choose|i: int| 0 <= i < before.len() && before[i] == t;
                    assert(now[i] == t);
                }
                if t == texts.last() {
                    assert(now[now.len() - 1] == t);
                }
                if now.contains(t) && t != texts.last() {
                    let i = choose|i: int| 0 <= i < now.len() && now[i] == t;
                    assert(before[i] == t);
                }
            }
        }
        assert forall|i: int, j: int| 0 <= i < j < now.len() implies now[i] != now[j] by {
            if !before.contains(texts.last()) {
                if j == now.len() - 1 {
                    assert(before[i] == now[i]);
                    assert(before.contains(now[i]));
                }
            }
        }
    }
}

/// Whether one of the texts is `text`.
pub fn holds_text(texts: &Vec<String>, text: &String) -> (r: bool)
    ensures
        r == texts.deep_view().contains(text@),
{
    let mut i: usize = 0;
    while i < texts.len()
        invariant
            i <= texts.len(),
            forall|k: int| 0 <= k < i ==> texts.deep_view()[k] != text@,
        decreases texts.len() - i,
    {
        assert(texts.deep_view()[i as int] == texts[i as int]@);
        if texts[i] == *text {
            return true;
        }
        i = i + 1;
    }
    false
}

/// Adds to `seen` the texts of `more` that it does not hold yet.
pub(crate) fn add_distinct(seen: &mut Vec<String>, more: &Vec<String>, Ghost(before): Ghost<Seq<Seq<char>>>)
    requires
        old(seen).deep_view() == distinct(before),
    ensures
        final(seen).deep_view() == distinct(before + more.deep_view()),
{
    let ghost all = more.deep_view();
    let mut i: usize = 0;
    assert(before + all.take(0) =~= before);
    while i < more.len()
        invariant
            i <= more.len(),
            all == more.deep_view(),
            seen.deep_view() == distinct(before + all.take(i as int)),
        decreases more.len() - i,
    {
        proof {
            let now = before + all.take(i + 1);
            assert(now.drop_last() =~= before + all.take(i as int));
            assert(now.last() == more[i as int]@);
        }
        if !holds_text(seen, &more[i]) {
            let ghost held = seen.deep_view();
            seen.push(more[i].clone());
            assert(seen.deep_view() =~= held.push(more[i as int]@));
        }
        i = i + 1;
    }
    assert(all.take(more.len() as int) =~= all);
}

/// The decimal digits of a number.
pub open spec fn decimal_text(n: nat) -> Seq<char>
    decreases n,
{
    if n < 10 {
        seq![digit_char(n)]
    } else {
        decimal_text(n / 10).push(digit_char(n % 10))
    }
}

/// The character of a digit.
pub open spec fn digit_char(d: nat) -> char {
    if d == 0 {
        '0'
    } else if d == 1 {
        '1'
    } else if d == 2 {
        '2'
    } else if d == 3 {
        '3'
    } else if d == 4 {
        '4'
    } else if d == 5 {
        '5'
    } else if d == 6 {
        '6'
    } else if d == 7 {
        '7'
    } else if d == 8 {
        '8'
    } else {
        '9'
    }
}

/// The character of a digit.
fn char_of_digit(d: usize) -> (r: char)
    requires
        d < 10,
    ensures
        r == digit_char(d as nat),
{
    if d == 0 {
        '0'
    } else if d == 1 {
        '1'
    } else if d == 2 {
        '2'
    } else if d == 3 {
        '3'
    } else if d == 4 {
        '4'
    } else if d == 5 {
        '5'
    } else if d == 6 {
        '6'
    } else if d == 7 {
        '7'
    } else if d == 8 {
        '8'
    } else {
        '9'
    }
}

/// Appends the decimal digits of `n` to `out`.
pub fn push_decimal(n: usize, out: &mut Vec<char>)
    ensures
        final(out)@ == old(out)@ + decimal_text(n as nat),
    decreases n,
{
    if n >= 10 {
        push_decimal(n / 10, out);
    }
    let ghost before = out@;
    out.push(char_of_digit(n % 10));
    proof {
        if n >= 10 {
            assert(out@ =~= old(out)@ + decimal_text((n / 10) as nat).push(
                digit_char((n % 10) as nat),
            ));
        } else {
            assert(out@ =~= old(out)@ + seq![digit_char(n as nat)]);
        }
    }
}

/// The lower-case form of a text, as the standard library's Unicode tables
/// give it.
pub uninterp spec fn lowercase(s: Seq<char>) -> Seq<char>;

/// The lower-case form of `s`.
///
/// Trusted: `str::to_lowercase` maps the text by the Unicode lower-case
/// tables; its result depends on the text alone.
#[verifier::external_body]
pub(crate) fn to_lowercase(s: &str) -> (r: String)
    ensures
        r@ == lowercase(s@),
{
    s.to_lowercase()
}

/// A text without its leading and trailing white space, as Unicode defines
/// white space.
pub uninterp spec fn trimmed(s: Seq<char>) -> Seq<char>;

/// `s` without its leading and trailing white space.
///
/// Trusted: `str::trim` returns the part of the text between its first and
/// last characters that are not white space; its result depends on the text
/// alone.
#[verifier::external_body]
pub(crate) fn trim(s: &str) -> (r: &str)
    ensures
        r@ == trimmed(s@),
{
    s.trim()
}

/// Whether a regular expression matches somewhere in a text; `None` where the
/// pattern is not a valid expression.
pub uninterp spec fn regex_match(pattern: Seq<char>, hay: Seq<char>) -> Option<bool>;

/// Whether `pattern` matches somewhere in `hay`.
///
/// Trusted: compiles the pattern with `regex::Regex::new` and asks
/// `Regex::is_match`. Both depend on their arguments alone and do not panic;
/// an invalid pattern gives `None`.
#[verifier::external_body]
pub(crate) fn regex_is_match(pattern: &str, hay: &str) -> (r: Option<bool>)
    ensures
        r == regex_match(pattern@, hay@),
{
    match regex::Regex::new(pattern) {
        Ok(re) => Some(re.is_match(hay)),
        Err(_) => None,
    }
}

/// The pieces of a text between the successive matches of a regular
/// expression; `None` where the pattern is not a valid expression.
pub uninterp spec fn regex_pieces(pattern: Seq<char>, hay: Seq<char>) -> Option<Seq<Seq<char>>>;

/// The pieces of `hay` between the successive matches of `pattern`.
///
/// Trusted: compiles the pattern with `regex::Regex::new` and collects what
/// `Regex::split` yields, each piece copied into a string. Both depend on
/// their arguments alone and do not panic; an invalid pattern gives `None`.
#[verifier::external_body]
pub(crate) fn regex_split(pattern: &str, hay: &str) -> (r: Option<Vec<String>>)
    ensures
        r.deep_view() == regex_pieces(pattern@, hay@),
{
    match regex::Regex::new(pattern) {
        Ok(re) => Some(re.split(hay).map(|piece| piece.to_string()).collect()),
        Err(_) => None,
    }
}

/// The successive non-overlapping matches of a regular expression in a text;
/// `None` where the pattern is not a valid expression.
pub uninterp spec fn regex_matches(pattern: Seq<char>, hay: Seq<char>) -> Option<Seq<Seq<char>>>;

/// The successive non-overlapping matches of `pattern` in `hay`.
///
/// Trusted: compiles the pattern with `regex::Regex::new` and collects what
/// `Regex::find_iter` yields, each match copied into a string. Both depend on
/// their arguments alone and do not panic; an invalid pattern gives `None`.
#[verifier::external_body]
pub(crate) fn regex_find_all(pattern: &str, hay: &str) -> (r: Option<Vec<String>>)
    ensures
        r.deep_view() == regex_matches(pattern@, hay@),
{
    match regex::Regex::new(pattern) {
        Ok(re) => Some(re.find_iter(hay).map(|m| m.as_str().to_string()).collect()),
        Err(_) => None,
    }
}

/// The capture groups of the first match of a regular expression in a text,
/// the whole match first, a group that took no part as `None`. The outer
/// `None` is for a pattern that is not a valid expression, the inner one for a
/// text without a match.
pub uninterp spec fn regex_groups(pattern: Seq<char>, hay: Seq<char>) -> Option<
    Option<Seq<Option<Seq<char>>>>,
>;

/// The capture groups of the first match of `pattern` in `hay`.
///
/// Trusted: compiles the pattern with `regex::Regex::new`, asks
/// `Regex::captures` for the first match and copies each group into a string.
/// Both depend on their arguments alone and do not panic; an invalid pattern
/// gives `None`.
#[verifier::external_body]
pub(crate) fn regex_captures(pattern: &str, hay: &str) -> (r: Option<Option<Vec<Option<String>>>>)
    ensures
        r.deep_view() == regex_groups(pattern@, hay@),
{
    match regex::Regex::new(pattern) {
        Ok(re) => Some(
            re.captures(hay).map(|c| c.iter().map(|g| g.map(|m| m.as_str().to_string())).collect()),
        ),
        Err(_) => None,
    }
}

} // verus!
