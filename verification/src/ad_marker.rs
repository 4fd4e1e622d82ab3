//! Exact-token detection of advertising markers in `id` and `class` values.
use crate::text::{ascii_lower, chars_of, lower_seq, run_equals};
use vstd::prelude::*;

verus! {

/// The characters that split a marker value into tokens: ASCII white space
/// and `-`, `_`, `:`, `.`.
pub open spec fn is_marker_separator(c: char) -> bool {
    c == ' ' || c == '\t' || c == '\n' || c == '\x0C' || c == '\r' || c == '-' || c == '_' || c
        == ':' || c == '.'
}

/// `s[i..j]` is one token of `s`: a maximal run without separators.
pub open spec fn is_token(s: Seq<char>, i: int, j: int) -> bool {
    &&& 0 <= i <= j <= s.len()
    &&& i == 0 || is_marker_separator(s[i - 1])
    &&& j == s.len() || is_marker_separator(s[j])
    &&& forall|k: int| i <= k < j ==> !is_marker_separator(#[trigger] s[k])
}

/// The advertising words, compared after ASCII lower-casing.
pub open spec fn is_ad_word(token: Seq<char>) -> bool {
    let w = lower_seq(token);
    ||| w == seq!['a', 'd']
    ||| w == seq!['a', 'd', 's']
    ||| w == seq!['a', 'd', 'v', 'e', 'r', 't']
    ||| w == seq!['a', 'd', 'v', 'e', 'r', 't', 'i', 's', 'e', 'm', 'e', 'n', 't']
    ||| w == seq!['s', 'p', 'o', 'n', 's', 'o', 'r']
    ||| w == seq!['s', 'p', 'o', 'n', 's', 'o', 'r', 'e', 'd']
    ||| w == seq!['b', 'a', 'n', 'n', 'e', 'r']
    ||| w == seq!['p', 'r', 'o', 'm', 'o', 't', 'i', 'o', 'n']
    ||| w == seq!['p', 'r', 'o', 'm', 'o', 't', 'e', 'd']
}

/// `s` has a token that is an advertising word.
pub open spec fn has_ad_marker(s: Seq<char>) -> bool {
    exists|i: int, j: int| #[trigger] is_token(s, i, j) && is_ad_word(s.subrange(i, j))
}

fn is_separator(c: char) -> (res: bool)
    ensures
        res == is_marker_separator(c),
{
    c == ' ' || c == '\t' || c == '\n' || c == '\x0C' || c == '\r' || c == '-' || c == '_' || c
        == ':' || c == '.'
}

/// Whether `v[from..to]` is an advertising word.
fn is_ad_run(v: &Vec<char>, from: usize, to: usize) -> (res: bool)
    requires
        from <= to <= v@.len(),
    ensures
        res == is_ad_word(v@.subrange(from as int, to as int)),
{
    run_equals(v, from, to, &['a', 'd'], true) || run_equals(v, from, to, &['a', 'd', 's'], true)
        || run_equals(v, from, to, &['a', 'd', 'v', 'e', 'r', 't'], true) || run_equals(
        v,
        from,
        to,
        &['a', 'd', 'v', 'e', 'r', 't', 'i', 's', 'e', 'm', 'e', 'n', 't'],
        true,
    ) || run_equals(v, from, to, &['s', 'p', 'o', 'n', 's', 'o', 'r'], true) || run_equals(
        v,
        from,
        to,
        &['s', 'p', 'o', 'n', 's', 'o', 'r', 'e', 'd'],
        true,
    ) || run_equals(v, from, to, &['b', 'a', 'n', 'n', 'e', 'r'], true) || run_equals(
        v,
        from,
        to,
        &['p', 'r', 'o', 'm', 'o', 't', 'i', 'o', 'n'],
        true,
    ) || run_equals(v, from, to, &['p', 'r', 'o', 'm', 'o', 't', 'e', 'd'], true)
}

/// Whether `value` (an `id` or `class` attribute) has a token that is an
/// advertising word. Only whole tokens count: `address-card` has none.
pub fn is_ad_marker(value: &str) -> (res: bool)
    ensures
        res == has_ad_marker(value@),
{
    let v = chars_of(value);
    let n = v.len();
    let mut start: usize = 0;
    let mut k: usize = 0;
    while k < n
        invariant
            n == v@.len(),
            v@ == value@,
            start <= k <= n,
            start == 0 || is_marker_separator(v@[start - 1]),
            forall|m: int| start <= m < k ==> !is_marker_separator(#[trigger] v@[m]),
            forall|i: int, j: int|
                #[trigger] is_token(v@, i, j) && j < k ==> !is_ad_word(v@.subrange(i, j)),
        decreases n - k,
    {
        if is_separator(v[k]) {
            proof {
                assert(is_token(v@, start as int, k as int));
                assert forall|i: int, j: int|
                    #[trigger] is_token(v@, i, j) && j == k implies i == start by {
                    if i < start {
                        assert(!is_marker_separator(v@[start - 1]));
                    }
                    if i > start {
                        assert(!is_marker_separator(v@[i - 1]));
                    }
                }
            }
            if is_ad_run(&v, start, k) {
                return true;
            }
            start = k + 1;
        }
        k = k + 1;
    }
    proof {
        assert(is_token(v@, start as int, n as int));
        assert forall|i: int, j: int| #[trigger] is_token(v@, i, j) && j == n implies i == start by {
            if i < start {
                assert(!is_marker_separator(v@[start - 1]));
            }
            if i > start {
                assert(!is_marker_separator(v@[i - 1]));
            }
        }
    }
    is_ad_run(&v, start, n)
}

/// Lower-casing keeps separators separators and other characters not.
proof fn lemma_lower_keeps_separators(c: char)
    ensures
        is_marker_separator(ascii_lower(c)) == is_marker_separator(c),
        ascii_lower(ascii_lower(c)) == ascii_lower(c),
{
}

/// Advertising markers ignore ASCII case: a value and its lower-cased form
/// have an advertising token alike.
pub proof fn lemma_marker_ignores_ascii_case(s: Seq<char>)
    ensures
        has_ad_marker(lower_seq(s)) == has_ad_marker(s),
{
    let l = lower_seq(s);
    assert forall|k: int| #![trigger l[k]] #![trigger s[k]] 0 <= k < s.len() implies is_marker_separator(l[k])
        == is_marker_separator(s[k]) by {
        lemma_lower_keeps_separators(s[k]);
    }
    assert forall|i: int, j: int| 0 <= i <= j <= s.len() implies #[trigger] is_token(l, i, j)
        == is_token(s, i, j) && is_ad_word(l.subrange(i, j)) == is_ad_word(s.subrange(i, j)) by {
        if i > 0 {
            assert(is_marker_separator(l[i - 1]) == is_marker_separator(s[i - 1]));
        }
        if j < s.len() {
            assert(is_marker_separator(l[j]) == is_marker_separator(s[j]));
        }
        assert forall|k: int| 0 <= k < j - i implies #[trigger] lower_seq(l.subrange(i, j))[k]
            == lower_seq(s.subrange(i, j))[k] by {
            lemma_lower_keeps_separators(s[i + k]);
        }
        assert(lower_seq(l.subrange(i, j)) =~= lower_seq(s.subrange(i, j)));
        assert(is_ad_word(l.subrange(i, j)) == is_ad_word(s.subrange(i, j)));
    }
    if has_ad_marker(s) {
        let (i, j) = choose|i: int, j: int| #[trigger] is_token(s, i, j) && is_ad_word(s.subrange(i, j));
        assert(is_token(l, i, j));
    }
    if has_ad_marker(l) {
        let (i, j) = choose|i: int, j: int| #[trigger] is_token(l, i, j) && is_ad_word(l.subrange(i, j));
        assert(is_token(s, i, j));
    }
}

/// No character of `w` is a separator, checked from the front.
spec fn no_separator(w: Seq<char>) -> bool
    decreases w.len(),
{
    w.len() == 0 || (!is_marker_separator(w[0]) && no_separator(w.drop_first()))
}

proof fn lemma_no_separator(w: Seq<char>)
    requires
        no_separator(w),
    ensures
        forall|k: int| 0 <= k < w.len() ==> !is_marker_separator(#[trigger] w[k]),
    decreases w.len(),
{
    if w.len() > 0 {
        lemma_no_separator(w.drop_first());
        assert forall|k: int| 0 <= k < w.len() implies !is_marker_separator(#[trigger] w[k]) by {
            if k > 0 {
                assert(w[k] == w.drop_first()[k - 1]);
            }
        }
    }
}

/// A value that is one advertising word (`ad`, `ads`, `advert`,
/// `advertisement`, `sponsor`, `sponsored`, `banner`, `promotion`,
/// `promoted`), in any ASCII case, has an advertising marker.
pub proof fn lemma_ad_words_are_markers(value: Seq<char>)
    requires
        lower_seq(value) == seq!['a', 'd']
        || lower_seq(value) == seq!['a', 'd', 's']
        || lower_seq(value) == seq!['a', 'd', 'v', 'e', 'r', 't']
        || lower_seq(value) == seq!['a', 'd', 'v', 'e', 'r', 't', 'i', 's', 'e', 'm', 'e', 'n', 't']
        || lower_seq(value) == seq!['s', 'p', 'o', 'n', 's', 'o', 'r']
        || lower_seq(value) == seq!['s', 'p', 'o', 'n', 's', 'o', 'r', 'e', 'd']
        || lower_seq(value) == seq!['b', 'a', 'n', 'n', 'e', 'r']
        || lower_seq(value) == seq!['p', 'r', 'o', 'm', 'o', 't', 'i', 'o', 'n']
        || lower_seq(value) == seq!['p', 'r', 'o', 'm', 'o', 't', 'e', 'd'],
    ensures
        has_ad_marker(value),
{
    let n = value.len() as int;
    let l = lower_seq(value);
    reveal_with_fuel(no_separator, 14);
    assert(no_separator(seq!['a', 'd']));
    assert(no_separator(seq!['a', 'd', 's']));
    assert(no_separator(seq!['a', 'd', 'v', 'e', 'r', 't']));
    assert(no_separator(seq!['a', 'd', 'v', 'e', 'r', 't', 'i', 's', 'e', 'm', 'e', 'n', 't']));
    assert(no_separator(seq!['s', 'p', 'o', 'n', 's', 'o', 'r']));
    assert(no_separator(seq!['s', 'p', 'o', 'n', 's', 'o', 'r', 'e', 'd']));
    assert(no_separator(seq!['b', 'a', 'n', 'n', 'e', 'r']));
    assert(no_separator(seq!['p', 'r', 'o', 'm', 'o', 't', 'i', 'o', 'n']));
    assert(no_separator(seq!['p', 'r', 'o', 'm', 'o', 't', 'e', 'd']));
    lemma_no_separator(l);
    assert forall|k: int| 0 <= k < n implies !is_marker_separator(#[trigger] value[k]) by {
        lemma_lower_keeps_separators(value[k]);
        assert(l[k] == ascii_lower(value[k]));
    }
    assert(value.subrange(0, n) =~= value);
    assert(is_token(value, 0, n));
}

/// Each of the advertising words, alone in a value, is a marker; in
/// particular `has_ad_marker("sponsored")` and `has_ad_marker("AD")`.
pub proof fn lemma_marker_examples()
    ensures
        has_ad_marker(seq!['s', 'p', 'o', 'n', 's', 'o', 'r', 'e', 'd']),
        has_ad_marker(seq!['A', 'D']),
{
    let a = seq!['s', 'p', 'o', 'n', 's', 'o', 'r', 'e', 'd'];
    assert(lower_seq(a) =~= a);
    lemma_ad_words_are_markers(a);
    let b = seq!['A', 'D'];
    assert(lower_seq(b) =~= seq!['a', 'd']);
    lemma_ad_words_are_markers(b);
}

} // verus!
