//! Which anchors count as external links, and which of those are unwrapped.
use crate::text::{chars_of, contains_chars, contains_run, run_equals, starts_with, starts_with_chars, trim, trim_str};
use url::Url;
use vstd::prelude::*;

verus! {

/// The scheme, as `Url::scheme` reports it, of the URL that `Url::parse`
/// reads from `s`; `None` where `Url::parse` refuses `s`.
pub uninterp spec fn url_scheme(s: Seq<char>) -> Option<Seq<char>>;

/// Whether `c` is an ASCII letter.
pub open spec fn is_ascii_alpha(c: char) -> bool {
    ('a' <= c <= 'z') || ('A' <= c <= 'Z')
}

/// Whether `s`, after its leading C0 controls and spaces, starts with an
/// ASCII letter: the first character of every scheme.
pub open spec fn scheme_can_start(s: Seq<char>) -> bool {
    exists|k: int|
        0 <= k < s.len() && is_ascii_alpha(#[trigger] s[k]) && forall|j: int|
            0 <= j < k ==> (s[j] as u32) <= 0x20
}

/// `Url::parse(s)` from the `url` crate, reduced to the scheme of the parsed
/// URL. `Url::parse` reads an absolute URL: on success the input, after its
/// leading C0 controls and spaces, begins with a scheme (an ASCII letter
/// first) that a `:` ends. Nothing more of the parser is stated here.
#[verifier::external_body]
fn parse_url_scheme(s: &str) -> (res: Option<String>)
    ensures
        res.deep_view() == url_scheme(s@),
        res is Some ==> s@.contains(':') && scheme_can_start(s@),
{
    Url::parse(s).ok().map(|url| url.scheme().to_string())
}

/// The schemes of web links.
pub open spec fn is_web_scheme(scheme: Seq<char>) -> bool {
    scheme == seq!['h', 't', 't', 'p'] || scheme == seq!['h', 't', 't', 'p', 's']
}

/// Whether a parsed scheme is `http` or `https`.
pub fn is_web_url_scheme(scheme: &Option<String>) -> (res: bool)
    ensures
        res == match scheme.deep_view() {
            Some(s) => is_web_scheme(s),
            None => false,
        },
{
    match scheme {
        Some(s) => {
            let v = chars_of(s.as_str());
            let http = run_equals(&v, 0, v.len(), &['h', 't', 't', 'p'], false);
            let https = run_equals(&v, 0, v.len(), &['h', 't', 't', 'p', 's'], false);
            proof {
                assert(v@.subrange(0, v@.len() as int) =~= v@);
            }
            http || https
        },
        None => false,
    }
}

/// An external link: after trimming, a protocol-relative `//host` reference
/// or an absolute `http`/`https` URL.
pub open spec fn spec_is_external_href(href: Seq<char>) -> bool {
    let t = trim(href);
    starts_with(t, seq!['/', '/']) || match url_scheme(t) {
        Some(s) => is_web_scheme(s),
        None => false,
    }
}

/// Whether `href` points outside the book: a protocol-relative reference or
/// an `http`/`https` URL. Fragments and relative paths are never external.
pub fn is_external_href(href: &str) -> (res: bool)
    ensures
        res == spec_is_external_href(href@),
        !starts_with(trim(href@), seq!['/', '/']) && !trim(href@).contains(':') ==> !res,
        trim(href@).len() > 0 && trim(href@)[0] == '#' ==> !res,
{
    let value = trim_str(href);
    let chars = chars_of(value);
    if starts_with_chars(&chars, &['/', '/']) {
        return true;
    }
    let scheme = parse_url_scheme(value);
    proof {
        if scheme is Some && value@.len() > 0 && value@[0] == '#' {
            let k = choose|k: int|
                0 <= k < value@.len() && is_ascii_alpha(#[trigger] value@[k]) && forall|j: int|
                    0 <= j < k ==> (value@[j] as u32) <= 0x20;
            if k > 0 {
                assert((value@[0] as u32) <= 0x20);
            }
        }
    }
    is_web_url_scheme(&scheme)
}

/// After trimming, a reference that starts with `//`, or that `Url::parse`
/// reads with the scheme `http` or `https`, is external; one that holds no
/// `:` and does not start with `//` is not.
pub proof fn lemma_external_href_forms(href: Seq<char>)
    ensures
        starts_with(trim(href), seq!['/', '/']) ==> spec_is_external_href(href),
        url_scheme(trim(href)) == Some(seq!['h', 't', 't', 'p']) ==> spec_is_external_href(href),
        url_scheme(trim(href)) == Some(seq!['h', 't', 't', 'p', 's']) ==> spec_is_external_href(href),
        url_scheme(trim(href)) matches Some(s) && s != seq!['h', 't', 't', 'p'] && s != seq![
            'h',
            't',
            't',
            'p',
            's',
        ] && !starts_with(trim(href), seq!['/', '/']) ==> !spec_is_external_href(href),
{
}

/// An `epub:type` holding `noteref`, or a `role` holding `doc-noteref`,
/// marks a note reference whatever else the other attribute says.
pub proof fn lemma_noteref_terms(epub_type: Option<Seq<char>>, role: Option<Seq<char>>)
    ensures
        (epub_type matches Some(t) && contains_run(t, seq!['n', 'o', 't', 'e', 'r', 'e', 'f']))
            ==> is_noteref(epub_type, role),
        (role matches Some(r) && contains_run(
            r,
            seq!['d', 'o', 'c', '-', 'n', 'o', 't', 'e', 'r', 'e', 'f'],
        )) ==> is_noteref(epub_type, role),
{
}

/// The term that marks a note reference in `epub:type`.
pub open spec fn noteref_term() -> Seq<char> {
    seq!['n', 'o', 't', 'e', 'r', 'e', 'f']
}

/// The term that marks a note reference in `role`.
pub open spec fn doc_noteref_term() -> Seq<char> {
    seq!['d', 'o', 'c', '-', 'n', 'o', 't', 'e', 'r', 'e', 'f']
}

/// A semantic note reference: `epub:type` contains `noteref` or `role`
/// contains `doc-noteref`.
pub open spec fn is_noteref(epub_type: Option<Seq<char>>, role: Option<Seq<char>>) -> bool {
    (epub_type matches Some(t) && contains_run(t, noteref_term())) || (role matches Some(r)
        && contains_run(r, doc_noteref_term()))
}

/// Whether the anchor's attributes mark it as a note reference, which is
/// never unwrapped.
pub fn is_noteref_anchor(epub_type: &Option<String>, role: &Option<String>) -> (res: bool)
    ensures
        res == is_noteref(epub_type.deep_view(), role.deep_view()),
{
    let typed = match epub_type {
        Some(t) => {
            let v = chars_of(t.as_str());
            contains_chars(&v, &['n', 'o', 't', 'e', 'r', 'e', 'f'])
        },
        None => false,
    };
    if typed {
        return true;
    }
    match role {
        Some(r) => {
            let v = chars_of(r.as_str());
            contains_chars(&v, &['d', 'o', 'c', '-', 'n', 'o', 't', 'e', 'r', 'e', 'f'])
        },
        None => false,
    }
}

/// An anchor is unwrapped when external links are being removed, it has an
/// external `href`, and it is not a note reference.
pub open spec fn anchor_unwraps(
    href: Option<Seq<char>>,
    epub_type: Option<Seq<char>>,
    role: Option<Seq<char>>,
    remove_links: bool,
) -> bool {
    &&& remove_links
    &&& href matches Some(h) && spec_is_external_href(h)
    &&& !is_noteref(epub_type, role)
}

/// Whether an anchor with these attributes is unwrapped (the element removed,
/// its content kept).
pub fn anchor_should_unwrap(
    href: &Option<String>,
    epub_type: &Option<String>,
    role: &Option<String>,
    remove_links: bool,
) -> (res: bool)
    ensures
        res == anchor_unwraps(href.deep_view(), epub_type.deep_view(), role.deep_view(), remove_links),
{
    if !remove_links {
        return false;
    }
    let external = match href {
        Some(h) => is_external_href(h.as_str()),
        None => false,
    };
    external && !is_noteref_anchor(epub_type, role)
}

} // verus!
