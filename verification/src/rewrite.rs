//! Rewriting of relative links in served pages into absolute gateway URLs.
//!
//! The regular expressions are run by the `regex` crate; which matches it
//! finds is named, not spelled out. Everything done with the matches (the
//! splicing of the page around them and the URL each one is replaced with)
//! is verified here.

use vstd::prelude::*;
use vstd::string::*;
use vstd::utf8::*;

use crate::gateway::{gateway_url, path_parent, resolve_relative_url};
use crate::text::push_str;

verus! {

/// One capture group: its byte span in the haystack and its text.
pub open spec fn group_view(g: Option<(usize, usize, String)>) -> Option<(int, int, Seq<char>)> {
    match g {
        Some(t) => Some((t.0 as int, t.1 as int, t.2@)),
        None => None,
    }
}

/// The groups of one match, group 0 (the whole match) first.
pub open spec fn capture_view(c: Vec<Option<(usize, usize, String)>>) -> Seq<
    Option<(int, int, Seq<char>)>,
> {
    c@.map_values(|g: Option<(usize, usize, String)>| group_view(g))
}

pub open spec fn captures_view(ms: Vec<Vec<Option<(usize, usize, String)>>>) -> Seq<
    Seq<Option<(int, int, Seq<char>)>>,
> {
    ms@.map_values(|c: Vec<Option<(usize, usize, String)>>| capture_view(c))
}

pub open spec fn captures_opt_view(r: Option<Vec<Vec<Option<(usize, usize, String)>>>>) -> Option<
    Seq<Seq<Option<(int, int, Seq<char>)>>>,
> {
    match r {
        Some(ms) => Some(captures_view(ms)),
        None => None,
    }
}

/// What `Regex::new(pattern)` followed by `captures_iter(text)` gives: `None`
/// when the pattern does not compile, else for each successive match the
/// span and text of every capture group.
pub uninterp spec fn regex_captures(pattern: Seq<char>, text: Seq<char>) -> Option<
    Seq<Seq<Option<(int, int, Seq<char>)>>>,
>;

pub open spec fn span_start(c: Seq<Option<(int, int, Seq<char>)>>) -> int {
    (c[0]->0).0
}

pub open spec fn span_end(c: Seq<Option<(int, int, Seq<char>)>>) -> int {
    (c[0]->0).1
}

/// The matches lie in the haystack in order, do not overlap, and start and
/// end on character boundaries.
pub open spec fn well_placed(bytes: Seq<u8>, ms: Seq<Seq<Option<(int, int, Seq<char>)>>>) -> bool {
    &&& forall|i: int|
        0 <= i < ms.len() ==> {
            &&& (#[trigger] ms[i]).len() >= 1
            &&& ms[i][0] is Some
            &&& 0 <= span_start(ms[i]) <= span_end(ms[i]) <= bytes.len()
            &&& is_char_boundary(bytes, span_start(ms[i]))
            &&& is_char_boundary(bytes, span_end(ms[i]))
        }
    &&& forall|i: int, j: int|
        0 <= i < j < ms.len() ==> span_end(#[trigger] ms[i]) <= span_start(#[trigger] ms[j])
}

/// Runs `Regex::new(pattern)` and collects `captures_iter(text)`: for each
/// match, every group (`Captures::iter`) with its byte span and text. The
/// claims beside the name are those of the crate's documentation: the
/// matches are successive and non-overlapping, group 0 is the whole match,
/// and every offset falls on a code point boundary.
#[verifier::external_body]
fn regex_captures_all(pattern: &str, text: &str) -> (r: Option<Vec<Vec<Option<(usize, usize, String)>>>>)
    ensures
        captures_opt_view(r) == regex_captures(pattern@, text@),
        r is Some ==> well_placed(text.spec_bytes(), captures_view(r->0)),
{
    regex::Regex::new(pattern).ok().map(|re| {
        re.captures_iter(text).map(|c| {
            c.iter().map(|g| g.map(|m| (m.start(), m.end(), m.as_str().to_string()))).collect()
        }).collect()
    })
}

/// The text of group `k`, empty when the group took no part in the match.
pub open spec fn group_text(c: Seq<Option<(int, int, Seq<char>)>>, k: int) -> Seq<char> {
    if 0 <= k < c.len() && c[k] is Some {
        (c[k]->0).2
    } else {
        Seq::empty()
    }
}

/// What a match is replaced with: for an HTML attribute (groups `attr` and
/// `url`) `attr="<gateway url>"`, for a Markdown link target (group `url`)
/// `](<gateway url>)`.
pub open spec fn replacement(
    c: Seq<Option<(int, int, Seq<char>)>>,
    markdown: bool,
    dir: Seq<char>,
    id: u128,
    host: Seq<char>,
) -> Seq<char> {
    if markdown {
        "]("@ + gateway_url(group_text(c, 1), dir, id, host) + ")"@
    } else {
        group_text(c, 1) + "=\""@ + gateway_url(group_text(c, 2), dir, id, host) + "\""@
    }
}

pub open spec fn prev_end(ms: Seq<Seq<Option<(int, int, Seq<char>)>>>, i: int) -> int {
    if i <= 0 {
        0
    } else {
        span_end(ms[i - 1])
    }
}

/// The output for the first `n` matches: the text before each match and its
/// replacement, in order.
pub open spec fn spliced(
    bytes: Seq<u8>,
    ms: Seq<Seq<Option<(int, int, Seq<char>)>>>,
    markdown: bool,
    dir: Seq<char>,
    id: u128,
    host: Seq<char>,
    n: nat,
) -> Seq<char>
    decreases n,
{
    if n == 0 {
        Seq::empty()
    } else {
        spliced(bytes, ms, markdown, dir, id, host, (n - 1) as nat) + decode_utf8(
            bytes.subrange(prev_end(ms, n - 1), span_start(ms[n - 1])),
        ) + replacement(ms[n - 1], markdown, dir, id, host)
    }
}

/// The haystack with every match replaced (`Regex::replace_all`).
pub open spec fn replaced_all(
    bytes: Seq<u8>,
    ms: Seq<Seq<Option<(int, int, Seq<char>)>>>,
    markdown: bool,
    dir: Seq<char>,
    id: u128,
    host: Seq<char>,
) -> Seq<char> {
    spliced(bytes, ms, markdown, dir, id, host, ms.len()) + decode_utf8(
        bytes.subrange(prev_end(ms, ms.len() as int), bytes.len() as int),
    )
}

/// The bytes of `s` from `a` to `b`.
fn str_between(s: &str, a: usize, b: usize) -> (r: &str)
    requires
        a <= b <= s.spec_bytes().len(),
        is_char_boundary(s.spec_bytes(), a as int),
        is_char_boundary(s.spec_bytes(), b as int),
    ensures
        r@ == decode_utf8(s.spec_bytes().subrange(a as int, b as int)),
{
    let ghost bytes = s.spec_bytes();
    proof {
        encode_utf8_valid_utf8(s@);
    }
    let (_, rest) = s.split_at(a);
    let ghost rb = rest.spec_bytes();
    proof {
        encode_utf8_valid_utf8(rest@);
        assert(rb =~= bytes.subrange(a as int, bytes.len() as int));
        if b as int == bytes.len() {
            is_char_boundary_start_end_of_seq(rb);
        } else {
            is_char_boundary_iff_not_is_continuation_byte(bytes, b as int);
            is_char_boundary_iff_not_is_continuation_byte(rb, b - a);
            assert(rb[b - a] == bytes[b as int]);
        }
    }
    let (mid, _) = rest.split_at(b - a);
    proof {
        encode_utf8_decode_utf8(mid@);
        assert(mid.spec_bytes() =~= bytes.subrange(a as int, b as int));
    }
    mid
}

/// The bytes of `s` from `a` to its end.
fn str_from(s: &str, a: usize) -> (r: &str)
    requires
        a <= s.spec_bytes().len(),
        is_char_boundary(s.spec_bytes(), a as int),
    ensures
        r@ == decode_utf8(s.spec_bytes().subrange(a as int, s.spec_bytes().len() as int)),
{
    let (_, rest) = s.split_at(a);
    proof {
        encode_utf8_decode_utf8(rest@);
    }
    rest
}

fn group_str(c: &Vec<Option<(usize, usize, String)>>, k: usize) -> (r: &str)
    ensures
        r@ == group_text(capture_view(*c), k as int),
{
    proof {
        reveal_strlit("");
    }
    if k < c.len() {
        assert(capture_view(*c)[k as int] == group_view(c@[k as int]));
        match &c[k] {
            Some(g) => g.2.as_str(),
            None => "",
        }
    } else {
        ""
    }
}

fn replacement_for(
    c: &Vec<Option<(usize, usize, String)>>,
    markdown: bool,
    dir: &str,
    id: u128,
    host: &str,
) -> (r: String)
    ensures
        r@ == replacement(capture_view(*c), markdown, dir@, id, host@),
{
    if markdown {
        let url = resolve_relative_url(group_str(c, 1), dir, id, host);
        let mut r = String::from_str("](");
        push_str(&mut r, url.as_str());
        push_str(&mut r, ")");
        r
    } else {
        let url = resolve_relative_url(group_str(c, 2), dir, id, host);
        let mut r = String::from_str(group_str(c, 1));
        push_str(&mut r, "=\"");
        push_str(&mut r, url.as_str());
        push_str(&mut r, "\"");
        r
    }
}

/// `text` with each of the matches `ms` replaced by the gateway URL of the
/// link it holds, the rest of the text kept as it is.
pub fn replace_matches(
    text: &str,
    ms: &Vec<Vec<Option<(usize, usize, String)>>>,
    markdown: bool,
    dir: &str,
    id: u128,
    host: &str,
) -> (r: String)
    requires
        well_placed(text.spec_bytes(), captures_view(*ms)),
    ensures
        r@ == replaced_all(text.spec_bytes(), captures_view(*ms), markdown, dir@, id, host@),
{
    let ghost bytes = text.spec_bytes();
    let ghost msv = captures_view(*ms);
    let mut out = String::new();
    let mut last: usize = 0;
    let mut i: usize = 0;
    proof {
        encode_utf8_valid_utf8(text@);
        is_char_boundary_start_end_of_seq(bytes);
    }
    while i < ms.len()
        invariant
            bytes == text.spec_bytes(),
            msv == captures_view(*ms),
            well_placed(bytes, msv),
            i <= ms.len(),
            last as int == prev_end(msv, i as int),
            last <= bytes.len(),
            is_char_boundary(bytes, last as int),
            out@ == spliced(bytes, msv, markdown, dir@, id, host@, i as nat),
        decreases ms.len() - i,
    {
        let c = &ms[i];
        assert(msv[i as int] == capture_view(*c));
        assert(msv[i as int].len() >= 1);
        assert(capture_view(*c)[0] == group_view(c@[0]));
        let (s, e) = match &c[0] {
            Some(g) => (g.0, g.1),
            None => (0, 0),
        };
        assert(s as int == span_start(msv[i as int]) && e as int == span_end(msv[i as int]));
        if i > 0 {
            assert(span_end(msv[i - 1]) <= span_start(msv[i as int]));
        }
        let piece = str_between(text, last, s);
        push_str(&mut out, piece);
        let rep = replacement_for(c, markdown, dir, id, host);
        push_str(&mut out, rep.as_str());
        last = e;
        i += 1;
    }
    let tail = str_from(text, last);
    push_str(&mut out, tail);
    out
}

/// The pattern of a relative link in an HTML attribute.
pub open spec fn html_attr_pattern() -> Seq<char> {
    r#"(?P<attr>(?:href|src|action|data|srcset))=["'](?P<url>\.{0,2}/[^"']+)["']"#@
}

/// The pattern of a relative link target in Markdown.
pub open spec fn markdown_link_pattern() -> Seq<char> {
    r#"\]\((?P<url>\.{0,2}/[^)]+)\)"#@
}

/// The directory of the page at `path` that its relative links are taken
/// against: none for the root, else the path's parent.
pub open spec fn page_dir(path: Seq<char>) -> Seq<char> {
    if path == "/"@ {
        Seq::empty()
    } else {
        match path_parent(path) {
            Some(p) => p,
            None => Seq::empty(),
        }
    }
}

/// One pass of a pattern over a text: the text with its matches replaced,
/// or the text itself when the pattern does not compile.
pub open spec fn rewrite_pass(
    pattern: Seq<char>,
    text: Seq<char>,
    markdown: bool,
    dir: Seq<char>,
    id: u128,
    host: Seq<char>,
) -> Seq<char> {
    match regex_captures(pattern, text) {
        Some(ms) => replaced_all(encode_utf8(text), ms, markdown, dir, id, host),
        None => text,
    }
}

pub open spec fn rewritten(content: Seq<char>, path: Seq<char>, id: u128, host: Seq<char>) -> Seq<
    char,
> {
    let dir = page_dir(path);
    let first = rewrite_pass(html_attr_pattern(), content, false, dir, id, host);
    rewrite_pass(markdown_link_pattern(), first, true, dir, id, host)
}

fn one_pass(pattern: &str, text: &str, markdown: bool, dir: &str, id: u128, host: &str) -> (r:
    String)
    ensures
        r@ == rewrite_pass(pattern@, text@, markdown, dir@, id, host@),
{
    match regex_captures_all(pattern, text) {
        Some(ms) => replace_matches(text, &ms, markdown, dir, id, host),
        None => String::from_str(text),
    }
}

/// Rewrites relative URLs in content to absolute gateway URLs: first the
/// `href`, `src`, `action`, `data` and `srcset` attributes of HTML, then the
/// targets of Markdown links. A `host` that is empty gives URLs that start
/// at `/gw/`.
pub fn rewrite_relative_urls(content: &str, current_path: &str, bucket_id: u128, host: &str) -> (r:
    String)
    ensures
        r@ == rewritten(content@, current_path@, bucket_id, host@),
{
    proof {
        reveal_strlit("/");
    }
    let root = String::from_str("/");
    let path = String::from_str(current_path);
    let dir = if path == root {
        String::new()
    } else {
        match crate::gateway::parent_of(current_path) {
            Some(p) => p,
            None => String::new(),
        }
    };
    let first = one_pass(
        r#"(?P<attr>(?:href|src|action|data|srcset))=["'](?P<url>\.{0,2}/[^"']+)["']"#,
        content,
        false,
        dir.as_str(),
        bucket_id,
        host,
    );
    one_pass(r#"\]\((?P<url>\.{0,2}/[^)]+)\)"#, first.as_str(), true, dir.as_str(), bucket_id, host)
}

/// A page in which the pattern finds no link is served as it is.
pub proof fn lemma_no_links_unchanged(
    pattern: Seq<char>,
    text: Seq<char>,
    markdown: bool,
    dir: Seq<char>,
    id: u128,
    host: Seq<char>,
)
    requires
        regex_captures(pattern, text) == Some(Seq::<Seq<Option<(int, int, Seq<char>)>>>::empty()),
    ensures
        rewrite_pass(pattern, text, markdown, dir, id, host) == text,
{
    let bytes = encode_utf8(text);
    assert(bytes.subrange(0, bytes.len() as int) =~= bytes);
    encode_utf8_decode_utf8(text);
    assert(spliced(bytes, Seq::empty(), markdown, dir, id, host, 0) =~= Seq::<char>::empty());
    assert(replaced_all(bytes, Seq::empty(), markdown, dir, id, host) =~= decode_utf8(bytes));
}

} // verus!
