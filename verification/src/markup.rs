//! Rewriting of (X)HTML documents with `lol_html`: external anchors and
//! advertising containers are unwrapped, their content kept. A document is
//! handed to the rewriter whole.
use crate::ad_marker::{has_ad_marker, is_ad_marker, is_ad_word, is_token};
use crate::errors::{CleanError, ErrorKind};
use crate::href::{anchor_should_unwrap, anchor_unwraps, is_noteref, spec_is_external_href};
use crate::report::{saturated, CleanOptions, TransformStats};
use crate::text::{chars_of, lower_seq, run_equals};
use lol_html::errors::RewritingError;
use lol_html::html_content::Element;
use lol_html::{ElementContentHandlers, HtmlRewriter, Settings};
use std::borrow::Cow;
use vstd::prelude::*;

verus! {

#[verifier::external_type_specification]
#[verifier::external_body]
pub struct ExRewritingError(RewritingError);

/// An attribute value, empty where the attribute is absent.
pub open spec fn or_empty(value: Option<Seq<char>>) -> Seq<char> {
    match value {
        Some(v) => v,
        None => Seq::empty(),
    }
}

/// The empty value has no advertising token.
pub proof fn lemma_empty_has_no_marker()
    ensures
        !has_ad_marker(Seq::<char>::empty()),
{
    assert forall|i: int, j: int| #[trigger] is_token(Seq::<char>::empty(), i, j) implies !is_ad_word(
        Seq::<char>::empty().subrange(i, j),
    ) by {
        assert(lower_seq(Seq::<char>::empty().subrange(i, j)).len() == 0);
    }
}

/// A container is unwrapped when advertising containers are being removed
/// and its `id` or its `class` holds an advertising token.
pub open spec fn container_unwraps(id: Option<Seq<char>>, class: Option<Seq<char>>, remove_ads: bool) -> bool {
    remove_ads && (has_ad_marker(or_empty(id)) || has_ad_marker(or_empty(class)))
}

/// Whether a container with these attributes is unwrapped.
pub fn container_should_unwrap(id: &Option<String>, class: &Option<String>, remove_ads: bool) -> (res: bool)
    ensures
        res == container_unwraps(id.deep_view(), class.deep_view(), remove_ads),
{
    if !remove_ads {
        return false;
    }
    let by_id = match id {
        Some(v) => is_ad_marker(v.as_str()),
        None => false,
    };
    let by_class = match class {
        Some(v) => is_ad_marker(v.as_str()),
        None => false,
    };
    proof {
        lemma_empty_has_no_marker();
    }
    by_id || by_class
}

/// The tag name of anchors.
pub open spec fn anchor_tag() -> Seq<char> {
    seq!['a']
}

/// The elements that may wrap advertising: `div`, `section`, `article`,
/// `aside`, `header`, `footer`, `p`, `table`, `ul` and `ol`. Nothing else
/// (`img`, `figure`, `svg`, `span`, ...) is ever unwrapped as a container.
pub open spec fn is_container_tag(tag: Seq<char>) -> bool {
    ||| tag == seq!['d', 'i', 'v']
    ||| tag == seq!['s', 'e', 'c', 't', 'i', 'o', 'n']
    ||| tag == seq!['a', 'r', 't', 'i', 'c', 'l', 'e']
    ||| tag == seq!['a', 's', 'i', 'd', 'e']
    ||| tag == seq!['h', 'e', 'a', 'd', 'e', 'r']
    ||| tag == seq!['f', 'o', 'o', 't', 'e', 'r']
    ||| tag == seq!['p']
    ||| tag == seq!['t', 'a', 'b', 'l', 'e']
    ||| tag == seq!['u', 'l']
    ||| tag == seq!['o', 'l']
}

/// Whether the (lower-case) tag name is one of the container elements.
pub fn is_container_element(tag: &Vec<char>) -> (res: bool)
    ensures
        res == is_container_tag(tag@),
{
    let n = tag.len();
    proof {
        assert(tag@.subrange(0, n as int) =~= tag@);
    }
    let word: [char; 3] = ['d', 'i', 'v'];
    proof {
        assert(word@ =~= seq!['d', 'i', 'v']);
    }
    if run_equals(tag, 0, n, &word, false) {
        return true;
    }
    let word: [char; 7] = ['s', 'e', 'c', 't', 'i', 'o', 'n'];
    proof {
        assert(word@ =~= seq!['s', 'e', 'c', 't', 'i', 'o', 'n']);
    }
    if run_equals(tag, 0, n, &word, false) {
        return true;
    }
    let word: [char; 7] = ['a', 'r', 't', 'i', 'c', 'l', 'e'];
    proof {
        assert(word@ =~= seq!['a', 'r', 't', 'i', 'c', 'l', 'e']);
    }
    if run_equals(tag, 0, n, &word, false) {
        return true;
    }
    let word: [char; 5] = ['a', 's', 'i', 'd', 'e'];
    proof {
        assert(word@ =~= seq!['a', 's', 'i', 'd', 'e']);
    }
    if run_equals(tag, 0, n, &word, false) {
        return true;
    }
    let word: [char; 6] = ['h', 'e', 'a', 'd', 'e', 'r'];
    proof {
        assert(word@ =~= seq!['h', 'e', 'a', 'd', 'e', 'r']);
    }
    if run_equals(tag, 0, n, &word, false) {
        return true;
    }
    let word: [char; 6] = ['f', 'o', 'o', 't', 'e', 'r'];
    proof {
        assert(word@ =~= seq!['f', 'o', 'o', 't', 'e', 'r']);
    }
    if run_equals(tag, 0, n, &word, false) {
        return true;
    }
    let word: [char; 1] = ['p'];
    proof {
        assert(word@ =~= seq!['p']);
    }
    if run_equals(tag, 0, n, &word, false) {
        return true;
    }
    let word: [char; 5] = ['t', 'a', 'b', 'l', 'e'];
    proof {
        assert(word@ =~= seq!['t', 'a', 'b', 'l', 'e']);
    }
    if run_equals(tag, 0, n, &word, false) {
        return true;
    }
    let word: [char; 2] = ['u', 'l'];
    proof {
        assert(word@ =~= seq!['u', 'l']);
    }
    if run_equals(tag, 0, n, &word, false) {
        return true;
    }
    let word: [char; 2] = ['o', 'l'];
    proof {
        assert(word@ =~= seq!['o', 'l']);
    }
    if run_equals(tag, 0, n, &word, false) {
        return true;
    }
    false
}

/// The rule for one element, by its lower-case tag name: an `a` follows the
/// link rule, a container element the container rule, and every other
/// element is kept.
pub open spec fn element_unwraps(
    tag: Seq<char>,
    href: Option<Seq<char>>,
    epub_type: Option<Seq<char>>,
    role: Option<Seq<char>>,
    id: Option<Seq<char>>,
    class: Option<Seq<char>>,
    remove_links: bool,
    remove_ads: bool,
) -> bool {
    if tag == anchor_tag() {
        anchor_unwraps(href, epub_type, role, remove_links)
    } else if is_container_tag(tag) {
        container_unwraps(id, class, remove_ads)
    } else {
        false
    }
}

/// Decides one element from its (lower-case) tag name and attributes, and
/// counts it in `stats` when it is unwrapped.
pub fn element_step(
    tag: String,
    href: Option<String>,
    epub_type: Option<String>,
    role: Option<String>,
    id: Option<String>,
    class: Option<String>,
    remove_links: bool,
    remove_ads: bool,
    stats: &mut TransformStats,
) -> (unwrap: bool)
    ensures
        unwrap == element_unwraps(
            tag@,
            href.deep_view(),
            epub_type.deep_view(),
            role.deep_view(),
            id.deep_view(),
            class.deep_view(),
            remove_links,
            remove_ads,
        ),
        final(stats).external_links_removed == if unwrap && tag@ == anchor_tag() {
            saturated(old(stats).external_links_removed, 1)
        } else {
            old(stats).external_links_removed
        },
        final(stats).ad_containers_removed == if unwrap && is_container_tag(tag@) {
            saturated(old(stats).ad_containers_removed, 1)
        } else {
            old(stats).ad_containers_removed
        },
{
    let name = chars_of(tag.as_str());
    let is_anchor = name.len() == 1 && name[0] == 'a';
    proof {
        if is_anchor {
            assert(tag@ =~= anchor_tag());
        } else if tag@ == anchor_tag() {
            assert(name@[0] == 'a');
        }
    }
    if is_anchor {
        let unwrap = anchor_should_unwrap(&href, &epub_type, &role, remove_links);
        if unwrap {
            if stats.external_links_removed < u64::MAX {
                stats.external_links_removed = stats.external_links_removed + 1;
            }
        }
        unwrap
    } else if is_container_element(&name) {
        let unwrap = container_should_unwrap(&id, &class, remove_ads);
        if unwrap {
            if stats.ad_containers_removed < u64::MAX {
                stats.ad_containers_removed = stats.ad_containers_removed + 1;
            }
        }
        unwrap
    } else {
        false
    }
}

/// With both removals switched off, no element is unwrapped.
pub proof fn lemma_keep_switches_unwrap_nothing(
    tag: Seq<char>,
    href: Option<Seq<char>>,
    epub_type: Option<Seq<char>>,
    role: Option<Seq<char>>,
    id: Option<Seq<char>>,
    class: Option<Seq<char>>,
)
    ensures
        !element_unwraps(tag, href, epub_type, role, id, class, false, false),
{
}

/// A note reference (`epub:type` containing `noteref`, or `role` containing
/// `doc-noteref`) is never unwrapped, whatever its `href`.
pub proof fn lemma_note_references_are_kept(
    href: Option<Seq<char>>,
    epub_type: Option<Seq<char>>,
    role: Option<Seq<char>>,
    id: Option<Seq<char>>,
    class: Option<Seq<char>>,
    remove_links: bool,
    remove_ads: bool,
)
    requires
        is_noteref(epub_type, role),
    ensures
        !element_unwraps(anchor_tag(), href, epub_type, role, id, class, remove_links, remove_ads),
{
}

/// Only anchors and the container elements are ever unwrapped: images,
/// figures, SVG and every other element are kept whatever their attributes.
pub proof fn lemma_only_anchors_and_containers_unwrap(
    tag: Seq<char>,
    href: Option<Seq<char>>,
    epub_type: Option<Seq<char>>,
    role: Option<Seq<char>>,
    id: Option<Seq<char>>,
    class: Option<Seq<char>>,
    remove_links: bool,
    remove_ads: bool,
)
    requires
        tag != anchor_tag(),
        !is_container_tag(tag),
    ensures
        !element_unwraps(tag, href, epub_type, role, id, class, remove_links, remove_ads),
{
}

/// A container without an advertising token in its `id` or `class` is kept;
/// an anchor is never judged by its `id` or `class`.
pub proof fn lemma_only_marked_containers_unwrap(
    tag: Seq<char>,
    href: Option<Seq<char>>,
    epub_type: Option<Seq<char>>,
    role: Option<Seq<char>>,
    id: Option<Seq<char>>,
    class: Option<Seq<char>>,
    remove_links: bool,
    remove_ads: bool,
)
    requires
        tag != anchor_tag(),
        !has_ad_marker(or_empty(id)),
        !has_ad_marker(or_empty(class)),
    ensures
        !element_unwraps(tag, href, epub_type, role, id, class, remove_links, remove_ads),
{
}

/// Each switch governs its own rule and nothing else: with `remove_ads` off
/// no container element is unwrapped, whatever `remove_links` is; with
/// `remove_links` off no anchor is unwrapped, whatever `remove_ads` is; an
/// anchor with an external `href` that is not a note reference is unwrapped
/// whenever `remove_links` is on; and a container element whose `id` or
/// `class` holds an advertising token is unwrapped whenever `remove_ads` is on.
pub proof fn lemma_switches_govern_their_own_rules(
    tag: Seq<char>,
    href: Option<Seq<char>>,
    epub_type: Option<Seq<char>>,
    role: Option<Seq<char>>,
    id: Option<Seq<char>>,
    class: Option<Seq<char>>,
    remove_links: bool,
    remove_ads: bool,
)
    ensures
        is_container_tag(tag) && !remove_ads ==> !element_unwraps(
            tag,
            href,
            epub_type,
            role,
            id,
            class,
            remove_links,
            remove_ads,
        ),
        tag == seq!['a'] && !remove_links ==> !element_unwraps(
            tag,
            href,
            epub_type,
            role,
            id,
            class,
            remove_links,
            remove_ads,
        ),
        tag == seq!['a'] && remove_links && (href matches Some(h) && spec_is_external_href(h))
            && !is_noteref(epub_type, role) ==> element_unwraps(
            tag,
            href,
            epub_type,
            role,
            id,
            class,
            remove_links,
            remove_ads,
        ),
        is_container_tag(tag) && remove_ads && (has_ad_marker(or_empty(id)) || has_ad_marker(
            or_empty(class),
        )) ==> element_unwraps(tag, href, epub_type, role, id, class, remove_links, remove_ads),
{
    if tag == seq!['a'] {
        assert(tag[0] == 'a' && tag.len() == 1);
        assert(seq!['p'][0] == 'p');
        assert(!is_container_tag(tag));
    }
}

/// Each of `div`, `section`, `article`, `aside`, `header`, `footer`, `p`,
/// `table`, `ul` and `ol` is unwrapped when advertising containers are being
/// removed and its `class` holds an advertising token.
pub proof fn lemma_container_elements_unwrap_on_marker(
    tag: Seq<char>,
    id: Option<Seq<char>>,
    class: Option<Seq<char>>,
    remove_links: bool,
)
    requires
        tag == seq!['d', 'i', 'v'] || tag == seq!['s', 'e', 'c', 't', 'i', 'o', 'n'] || tag == seq![
            'a',
            'r',
            't',
            'i',
            'c',
            'l',
            'e',
        ] || tag == seq!['a', 's', 'i', 'd', 'e'] || tag == seq!['h', 'e', 'a', 'd', 'e', 'r'] || tag
            == seq!['f', 'o', 'o', 't', 'e', 'r'] || tag == seq!['p'] || tag == seq![
            't',
            'a',
            'b',
            'l',
            'e',
        ] || tag == seq!['u', 'l'] || tag == seq!['o', 'l'],
        has_ad_marker(or_empty(class)),
    ensures
        element_unwraps(tag, None, None, None, id, class, remove_links, true),
{
    if tag == seq!['a'] {
        assert(tag[0] == 'a' && tag.len() == 1);
        assert(seq!['p'][0] == 'p');
    }
}

/// What `lol_html::HtmlRewriter` (default settings, the input written in one
/// chunk, then ended) produces from `input` when every element (selector
/// `*`) is handed to `element_step` and unwrapped
/// (`Element::remove_and_keep_content`) where it answers yes: the output
/// bytes and the link and container counts; `None` where the rewriter fails.
pub uninterp spec fn rewritten(input: Seq<u8>, remove_links: bool, remove_ads: bool) -> Option<(Seq<u8>, u64, u64)>;

/// Runs `lol_html::HtmlRewriter` over `input`, handing every element to
/// `element_step` (its tag name and five attributes read with
/// `Element::tag_name` and `Element::get_attribute`) and calling
/// `Element::remove_and_keep_content` when it answers yes. That one call
/// stands in the handler because `Element` (bound by `H: HandlerTypes`)
/// cannot appear in a verified signature.
///
/// With both removals off, `element_step` answers no for every element and
/// adds nothing to the counters, which start at zero; and the rewriter writes
/// every token that no handler changed back as its original bytes
/// (`StartTag::serialize_self` emits `raw.original()`; text and other tokens
/// pass through unread). The output is then the input.
#[verifier::external_body]
fn rewrite_markup(input: &[u8], remove_links: bool, remove_ads: bool) -> (res: Result<(Vec<u8>, TransformStats), RewritingError>)
    ensures
        match res {
            Ok((out, stats)) => rewritten(input@, remove_links, remove_ads) == Some(
                (out@, stats.external_links_removed, stats.ad_containers_removed),
            ),
            Err(_) => rewritten(input@, remove_links, remove_ads) is None,
        },
        !remove_links && !remove_ads ==> (res matches Ok((out, stats)) ==> out@ == input@
            && stats.external_links_removed == 0 && stats.ad_containers_removed == 0),
{
    let (mut out, mut stats) = (Vec::new(), TransformStats::default());
    let handlers = ElementContentHandlers::default().element(|el: &mut Element| {
        let attribute = |name| el.get_attribute(name);
        let unwrap = element_step(el.tag_name(), attribute("href"), attribute("epub:type"), attribute("role"), attribute("id"), attribute("class"), remove_links, remove_ads, &mut stats);
        Ok(if unwrap { el.remove_and_keep_content() })
    });
    let selector = Cow::Owned("*".parse().unwrap());
    let mut rewriter = HtmlRewriter::new(Settings::new().append_element_content_handler((selector, handlers)), |chunk: &[u8]| out.extend_from_slice(chunk));
    rewriter.write(input)?;
    rewriter.end()?;
    Ok((out, stats))
}

/// The `Display` text of a rewriting error.
#[verifier::external_body]
fn rewriting_error_text(error: &RewritingError) -> String {
    error.to_string()
}

/// Rewrites the markup `input` by the options, appending the result to
/// `output`: external anchors (unless note references) and advertising
/// containers are unwrapped with their content kept; nothing else changes.
/// With both removals off, a successful rewrite appends the input unchanged.
pub fn transform_markup(input: &[u8], output: &mut Vec<u8>, options: &CleanOptions) -> (res: Result<TransformStats, CleanError>)
    ensures
        match rewritten(input@, options.remove_external_links, options.remove_ad_containers) {
            Some((out, links, ads)) => res matches Ok(stats) && final(output)@ == old(output)@ + out
                && stats.external_links_removed == links && stats.ad_containers_removed == ads,
            None => res matches Err(e) && e@.0 == ErrorKind::Rewrite && final(output)@ == old(output)@,
        },
        !options.remove_external_links && !options.remove_ad_containers ==> (res matches Ok(stats)
            ==> final(output)@ == old(output)@ + input@ && stats.external_links_removed == 0
            && stats.ad_containers_removed == 0),
{
    match rewrite_markup(input, options.remove_external_links, options.remove_ad_containers) {
        Ok((mut bytes, stats)) => {
            output.append(&mut bytes);
            Ok(stats)
        },
        Err(error) => Err(CleanError::Rewrite(rewriting_error_text(&error))),
    }
}

} // verus!
