//! Character-level helpers shared by the cleaning rules: whitespace trimming,
//! ASCII case folding, and prefix, suffix and infix tests over `Seq<char>`.
use vstd::prelude::*;

verus! {

/// The characters of `s`, in order.
pub fn chars_of(s: &str) -> (res: Vec<char>)
    ensures
        res@ == s@,
{
    let mut res: Vec<char> = Vec::new();
    for c in it: s.chars()
        invariant
            res@ == it.seq().take(it.index() as int),
    {
        res.push(c);
    }
    proof {
        assert(res@ =~= s@);
    }
    res
}

/// The Unicode `White_Space` property.
pub open spec fn is_white_space(c: char) -> bool {
    let u = c as u32;
    ||| 0x09 <= u <= 0x0d
    ||| u == 0x20
    ||| u == 0x85
    ||| u == 0xa0
    ||| u == 0x1680
    ||| 0x2000 <= u <= 0x200a
    ||| u == 0x2028
    ||| u == 0x2029
    ||| u == 0x202f
    ||| u == 0x205f
    ||| u == 0x3000
}

/// Whether `c` has the Unicode `White_Space` property (what
/// `char::is_whitespace` tests).
pub fn char_is_whitespace(c: char) -> (res: bool)
    ensures
        res == is_white_space(c),
{
    let u = c as u32;
    (0x09 <= u && u <= 0x0d) || u == 0x20 || u == 0x85 || u == 0xa0 || u == 0x1680 || (0x2000 <= u
        && u <= 0x200a) || u == 0x2028 || u == 0x2029 || u == 0x202f || u == 0x205f || u == 0x3000
}

/// `s` without its leading white space.
pub open spec fn trim_start(s: Seq<char>) -> Seq<char>
    decreases s.len(),
{
    if s.len() > 0 && is_white_space(s[0]) {
        trim_start(s.drop_first())
    } else {
        s
    }
}

/// `s` without its trailing white space.
pub open spec fn trim_end(s: Seq<char>) -> Seq<char>
    decreases s.len(),
{
    if s.len() > 0 && is_white_space(s.last()) {
        trim_end(s.drop_last())
    } else {
        s
    }
}

/// `s` without leading and trailing white space, as `str::trim` returns it.
pub open spec fn trim(s: Seq<char>) -> Seq<char> {
    trim_end(trim_start(s))
}

/// The bounds `(start, end)` of the trimmed part of `v`.
pub fn trim_bounds(v: &Vec<char>) -> (res: (usize, usize))
    ensures
        res.0 <= res.1 <= v@.len(),
        v@.subrange(res.0 as int, res.1 as int) == trim(v@),
{
    let n = v.len();
    let mut start: usize = 0;
    proof {
        assert(v@.skip(0) =~= v@);
    }
    while start < n && char_is_whitespace(v[start])
        invariant
            n == v@.len(),
            start <= n,
            trim_start(v@) == trim_start(v@.skip(start as int)),
        decreases n - start,
    {
        proof {
            assert(v@.skip(start as int).drop_first() =~= v@.skip(start + 1));
        }
        start = start + 1;
    }
    let mut end: usize = n;
    proof {
        assert(v@.skip(start as int) =~= v@.subrange(start as int, n as int));
    }
    while end > start && char_is_whitespace(v[end - 1])
        invariant
            n == v@.len(),
            start <= end <= n,
            trim(v@) == trim_end(v@.subrange(start as int, end as int)),
        decreases end - start,
    {
        proof {
            assert(v@.subrange(start as int, end as int).drop_last() =~= v@.subrange(
                start as int,
                end - 1,
            ));
        }
        end = end - 1;
    }
    (start, end)
}

/// `s` with leading and trailing white space removed.
pub fn trim_str(s: &str) -> (res: &str)
    ensures
        res@ == trim(s@),
{
    let v = chars_of(s);
    let (start, end) = trim_bounds(&v);
    s.substring_char(start, end)
}

/// ASCII lower-casing of one character; every other character is unchanged.
pub open spec fn ascii_lower(c: char) -> char {
    if 'A' <= c <= 'Z' {
        ((c as u32) + 32) as char
    } else {
        c
    }
}

/// ASCII lower-casing of a sequence, character by character.
pub open spec fn lower_seq(s: Seq<char>) -> Seq<char> {
    s.map_values(|c: char| ascii_lower(c))
}

/// Whether `s` ends with `suffix`.
pub open spec fn ends_with(s: Seq<char>, suffix: Seq<char>) -> bool {
    suffix.len() <= s.len() && s.subrange(s.len() - suffix.len(), s.len() as int) == suffix
}

/// Whether `s` starts with `prefix`.
pub open spec fn starts_with(s: Seq<char>, prefix: Seq<char>) -> bool {
    prefix.len() <= s.len() && s.subrange(0, prefix.len() as int) == prefix
}

/// Whether `part` occurs in `s` as a contiguous run of characters.
pub open spec fn contains_run(s: Seq<char>, part: Seq<char>) -> bool {
    exists|i: int| 0 <= i && i + part.len() <= s.len() && #[trigger] s.subrange(i, i + part.len()) == part
}

/// ASCII lower-casing of one character.
pub fn lower_char(c: char) -> (res: char)
    ensures
        res == ascii_lower(c),
{
    if 'A' <= c && c <= 'Z' {
        ((c as u8) + 32) as char
    } else {
        c
    }
}

/// Whether the characters `v[from..to]`, ASCII lower-cased when `fold` is
/// set, equal `word`.
pub fn run_equals(v: &Vec<char>, from: usize, to: usize, word: &[char], fold: bool) -> (res: bool)
    requires
        from <= to <= v@.len(),
    ensures
        res == (if fold {
            lower_seq(v@.subrange(from as int, to as int)) == word@
        } else {
            v@.subrange(from as int, to as int) == word@
        }),
{
    if to - from != word.len() {
        return false;
    }
    let mut k: usize = 0;
    while k < word.len()
        invariant
            from <= to <= v@.len(),
            to - from == word@.len(),
            k <= word@.len(),
            forall|m: int|
                0 <= m < k ==> (if fold {
                    ascii_lower(v@[from + m])
                } else {
                    v@[from + m]
                }) == word@[m],
        decreases word.len() - k,
    {
        let c = if fold {
            lower_char(v[from + k])
        } else {
            v[from + k]
        };
        if c != word[k] {
            proof {
                if fold {
                    assert(lower_seq(v@.subrange(from as int, to as int))[k as int] != word@[k as int]);
                } else {
                    assert(v@.subrange(from as int, to as int)[k as int] != word@[k as int]);
                }
            }
            return false;
        }
        k = k + 1;
    }
    proof {
        if fold {
            assert(lower_seq(v@.subrange(from as int, to as int)) =~= word@);
        } else {
            assert(v@.subrange(from as int, to as int) =~= word@);
        }
    }
    true
}

/// Whether `v` ends with `suffix`, compared after ASCII lower-casing `v`
/// when `fold` is set.
pub fn ends_with_chars(v: &Vec<char>, suffix: &[char], fold: bool) -> (res: bool)
    ensures
        res == (if fold {
            ends_with(lower_seq(v@), suffix@)
        } else {
            ends_with(v@, suffix@)
        }),
{
    if suffix.len() > v.len() {
        return false;
    }
    let from = v.len() - suffix.len();
    let r = run_equals(v, from, v.len(), suffix, fold);
    proof {
        assert(lower_seq(v@).subrange(from as int, v@.len() as int) =~= lower_seq(
            v@.subrange(from as int, v@.len() as int),
        ));
    }
    r
}

/// Whether `v` starts with `prefix`.
pub fn starts_with_chars(v: &Vec<char>, prefix: &[char]) -> (res: bool)
    ensures
        res == starts_with(v@, prefix@),
{
    if prefix.len() > v.len() {
        return false;
    }
    run_equals(v, 0, prefix.len(), prefix, false)
}

/// Whether `part` occurs in `v` as a contiguous run.
pub fn contains_chars(v: &Vec<char>, part: &[char]) -> (res: bool)
    ensures
        res == contains_run(v@, part@),
{
    if part.len() > v.len() {
        return false;
    }
    let last = v.len() - part.len();
    let mut i: usize = 0;
    loop
        invariant
            last + part.len() == v.len(),
            i <= last,
            forall|j: int| 0 <= j < i ==> #[trigger] v@.subrange(j, j + part@.len()) != part@,
        decreases last - i,
    {
        if run_equals(v, i, i + part.len(), part, false) {
            return true;
        }
        if i == last {
            return false;
        }
        i = i + 1;
    }
}

} // verus!
