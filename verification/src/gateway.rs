//! What the gateway serves for a request: host and path normalisation,
//! short forms of ids and links, content negotiation, and the choice of
//! response for files and directories.

use vstd::prelude::*;
use vstd::string::*;
use vstd::utf8::{decode_utf8, encode_utf8_decode_utf8, is_char_boundary};

use crate::text::{
    chars_of, contains_chars, contains_seq, find_chars_from, find_seq, hex, push_char, push_str,
    zero_pad,
};

verus! {

/// Shared query parameters for gateway routes.
pub struct GatewayQuery {
    /// Load a specific version by hash
    pub at: Option<String>,
    /// If true, serve the raw file with Content-Disposition: attachment
    pub download: Option<bool>,
    /// If true, show the file in viewer UI even if it's HTML/Markdown
    pub view: Option<bool>,
    /// If true, recursively list all files under the path (deep listing)
    pub deep: Option<bool>,
    /// If true, return JSON instead of HTML
    pub json: Option<bool>,
}

pub open spec fn flag(f: Option<bool>) -> bool {
    match f {
        Some(b) => b,
        None => false,
    }
}

impl GatewayQuery {
    /// Whether the raw file is asked for as an attachment (off unless given).
    pub fn wants_download(&self) -> (r: bool)
        ensures
            r == flag(self.download),
    {
        match self.download {
            Some(b) => b,
            None => false,
        }
    }

    /// Whether the viewer is asked for even for HTML and Markdown.
    pub fn wants_view(&self) -> (r: bool)
        ensures
            r == flag(self.view),
    {
        match self.view {
            Some(b) => b,
            None => false,
        }
    }

    /// Whether a deep listing is asked for.
    pub fn wants_deep(&self) -> (r: bool)
        ensures
            r == flag(self.deep),
    {
        match self.deep {
            Some(b) => b,
            None => false,
        }
    }

    /// Whether JSON is asked for by the query.
    pub fn wants_json(&self) -> (r: bool)
        ensures
            r == flag(self.json),
    {
        match self.json {
            Some(b) => b,
            None => false,
        }
    }
}

pub open spec fn starts_with(s: Seq<char>, p: Seq<char>) -> bool {
    p.len() <= s.len() && s.take(p.len() as int) == p
}

pub fn starts_with_chars(s: &Vec<char>, p: &Vec<char>) -> (r: bool)
    ensures
        r == starts_with(s@, p@),
{
    if p.len() > s.len() {
        return false;
    }
    let mut i: usize = 0;
    while i < p.len()
        invariant
            i <= p.len() <= s.len(),
            forall|k: int| 0 <= k < i ==> s@[k] == p@[k],
        decreases p.len() - i,
    {
        if s[i] != p[i] {
            assert(s@.take(p.len() as int)[i as int] != p@[i as int]);
            return false;
        }
        i += 1;
    }
    assert(s@.take(p.len() as int) =~= p@);
    true
}

/// The base URL of the gateway as the request's `Host` header gives it: a
/// header with a scheme is taken as is; otherwise `http://` for localhost
/// and `127.0.0.1`, `https://` for other hosts; `http://localhost` without
/// the header.
pub open spec fn base_url_of(host: Option<Seq<char>>) -> Seq<char> {
    match host {
        None => "http://localhost"@,
        Some(h) => if starts_with(h, "http://"@) || starts_with(h, "https://"@) {
            h
        } else if contains_seq(h, "localhost"@) || starts_with(h, "127.0.0.1"@) {
            "http://"@ + h
        } else {
            "https://"@ + h
        },
    }
}

pub fn gateway_base_url(host: Option<&str>) -> (r: String)
    ensures
        r@ == base_url_of(
            match host {
                Some(h) => Some(h@),
                None => None,
            },
        ),
{
    match host {
        None => String::from_str("http://localhost"),
        Some(h) => {
            let cs = chars_of(h);
            if starts_with_chars(&cs, &chars_of("http://")) || starts_with_chars(
                &cs,
                &chars_of("https://"),
            ) {
                String::from_str(h)
            } else if contains_chars(&cs, &chars_of("localhost")) || starts_with_chars(
                &cs,
                &chars_of("127.0.0.1"),
            ) {
                let mut r = String::from_str("http://");
                push_str(&mut r, h);
                r
            } else {
                let mut r = String::from_str("https://");
                push_str(&mut r, h);
                r
            }
        },
    }
}

/// A request path made absolute: a `/` is put in front unless it starts
/// with one.
pub open spec fn absolute_path(p: Seq<char>) -> Seq<char> {
    if p.len() > 0 && p[0] == '/' {
        p
    } else {
        seq!['/'] + p
    }
}

pub fn ensure_absolute(path: &str) -> (r: String)
    ensures
        r@ == absolute_path(path@),
{
    proof {
        reveal_strlit("/");
    }
    let cs = chars_of(path);
    if cs.len() > 0 && cs[0] == '/' {
        String::from_str(path)
    } else {
        let mut r = String::from_str("/");
        push_str(&mut r, path);
        r
    }
}

/// The bytes of `s` from `from` to `to`, as a string.
pub open spec fn byte_slice(s: &str, from: int, to: int) -> Seq<char> {
    decode_utf8(s.spec_bytes().subrange(from, to))
}

/// `s[..head]`, `...` and `s[s.len() - tail..]`, in bytes.
pub open spec fn abbreviated(s: &str, head: int, tail: int) -> Seq<char> {
    byte_slice(s, 0, head) + "..."@ + byte_slice(s, s.spec_bytes().len() - tail, s.spec_bytes().len() as int)
}

pub open spec fn can_abbreviate(s: &str, head: int, tail: int) -> bool {
    &&& s.spec_bytes().len() <= usize::MAX
    &&& head <= s.spec_bytes().len()
    &&& tail <= s.spec_bytes().len()
    &&& is_char_boundary(s.spec_bytes(), head)
    &&& is_char_boundary(s.spec_bytes(), s.spec_bytes().len() - tail)
}

/// The first `head` and last `tail` bytes of `s` with `...` between them.
pub fn abbreviate(s: &str, head: usize, tail: usize) -> (r: String)
    requires
        can_abbreviate(s, head as int, tail as int),
    ensures
        r@ == abbreviated(s, head as int, tail as int),
{
    let n = s.len();
    let (front, _) = s.split_at(head);
    let (_, back) = s.split_at(n - tail);
    proof {
        encode_utf8_decode_utf8(front@);
        encode_utf8_decode_utf8(back@);
    }
    let mut r = String::from_str(front);
    push_str(&mut r, "...");
    push_str(&mut r, back);
    r
}

/// A link hash shortened for display: its first and last eight bytes
/// around `...` when it is longer than sixteen bytes.
pub fn shorten_link(link: &str) -> (r: String)
    requires
        link.spec_bytes().len() <= usize::MAX,
        link.spec_bytes().len() > 16 ==> can_abbreviate(link, 8, 8),
    ensures
        link.spec_bytes().len() > 16 ==> r@ == abbreviated(link, 8, 8),
        link.spec_bytes().len() <= 16 ==> r@ == link@,
{
    if link.len() > 16 {
        abbreviate(link, 8, 8)
    } else {
        String::from_str(link)
    }
}

/// The 32 lowercase hex digits of an id.
pub open spec fn id_hex(id: u128) -> Seq<char> {
    zero_pad(hex(id as nat), 32)
}

/// An id in the hyphenated form `8-4-4-4-12` of lowercase hex digits.
pub open spec fn id_text(id: u128) -> Seq<char> {
    let h = id_hex(id);
    h.subrange(0, 8) + seq!['-'] + h.subrange(8, 12) + seq!['-'] + h.subrange(12, 16) + seq!['-']
        + h.subrange(16, 20) + seq!['-'] + h.subrange(20, 32)
}

proof fn lemma_hex_len(n: nat, k: nat)
    requires
        k >= 1,
        n < pow16(k),
    ensures
        hex(n).len() <= k,
    decreases n,
{
    if n >= 16 {
        if k == 1 {
            assert(pow16(1) == 16 * pow16(0));
        } else {
            assert(pow16(k) == 16 * pow16((k - 1) as nat));
            assert(n / 16 < pow16((k - 1) as nat));
            lemma_hex_len(n / 16, (k - 1) as nat);
        }
    }
}

pub open spec fn pow16(k: nat) -> nat
    decreases k,
{
    if k == 0 {
        1
    } else {
        16 * pow16((k - 1) as nat)
    }
}

proof fn lemma_pow16_32()
    ensures
        pow16(32) == 0x1_0000_0000_0000_0000_0000_0000_0000_0000,
{
    reveal_with_fuel(pow16, 33);
}

/// An id in its hyphenated text form.
pub fn id_to_text(id: u128) -> (r: String)
    ensures
        r@ == id_text(id),
        r@.len() == 36,
{
    let digits = crate::text::hex_digits_u128(id);
    proof {
        lemma_pow16_32();
        lemma_hex_len(id as nat, 32);
    }
    let mut padded: Vec<char> = Vec::new();
    let pad = 32 - digits.len();
    let mut i: usize = 0;
    while i < pad
        invariant
            i <= pad,
            pad == 32 - digits.len(),
            padded@ == Seq::new(i as nat, |k: int| '0'),
        decreases pad - i,
    {
        padded.push('0');
        i += 1;
        assert(padded@ =~= Seq::new(i as nat, |k: int| '0'));
    }
    let mut j: usize = 0;
    let ghost zeros = padded@;
    while j < digits.len()
        invariant
            j <= digits.len(),
            padded@ == zeros + digits@.take(j as int),
        decreases digits.len() - j,
    {
        padded.push(digits[j]);
        j += 1;
        assert(padded@ =~= zeros + digits@.take(j as int));
    }
    assert(digits@.take(digits.len() as int) =~= digits@);
    assert(padded@ =~= id_hex(id));
    assert(padded@.len() == 32);
    let mut r = String::new();
    push_range(&mut r, &padded, 0, 8);
    push_char(&mut r, '-');
    push_range(&mut r, &padded, 8, 12);
    push_char(&mut r, '-');
    push_range(&mut r, &padded, 12, 16);
    push_char(&mut r, '-');
    push_range(&mut r, &padded, 16, 20);
    push_char(&mut r, '-');
    push_range(&mut r, &padded, 20, 32);
    assert(r@ =~= id_text(id));
    r
}

/// Appends `v[a..b]`.
pub fn push_range(r: &mut String, v: &Vec<char>, a: usize, b: usize)
    requires
        a <= b <= v.len(),
    ensures
        final(r)@ == old(r)@ + v@.subrange(a as int, b as int),
{
    let ghost start = r@;
    let mut i = a;
    while i < b
        invariant
            a <= i <= b <= v.len(),
            r@ == start + v@.subrange(a as int, i as int),
        decreases b - i,
    {
        push_char(r, v[i]);
        i += 1;
        assert(r@ =~= start + v@.subrange(a as int, i as int));
    }
}

/// An id shortened for display: its first eight and last four characters
/// around `...`.
pub open spec fn short_id(id: u128) -> Seq<char> {
    id_text(id).subrange(0, 8) + "..."@ + id_text(id).subrange(32, 36)
}

pub fn id_short(id: u128) -> (r: String)
    ensures
        r@ == short_id(id),
{
    let text = id_to_text(id);
    let cs = chars_of(text.as_str());
    let mut r = String::new();
    let mut i: usize = 0;
    while i < 8
        invariant
            i <= 8,
            cs@ == id_text(id),
            cs@.len() == 36,
            r@ == cs@.subrange(0, i as int),
        decreases 8 - i,
    {
        push_char(&mut r, cs[i]);
        i += 1;
        assert(r@ =~= cs@.subrange(0, i as int));
    }
    push_str(&mut r, "...");
    let ghost mid = r@;
    let mut j: usize = 32;
    while j < 36
        invariant
            32 <= j <= 36,
            cs@ == id_text(id),
            cs@.len() == 36,
            r@ == mid + cs@.subrange(32, j as int),
        decreases 36 - j,
    {
        push_char(&mut r, cs[j]);
        j += 1;
        assert(r@ =~= mid + cs@.subrange(32, j as int));
    }
    r
}

/// Whether the `Accept` header asks for JSON rather than HTML:
/// `application/json` is present and comes before `text/html`, or
/// `text/html` is absent.
pub open spec fn prefers_json(accept: Option<Seq<char>>) -> bool {
    match accept {
        None => false,
        Some(a) => match (find_seq(a, "application/json"@), find_seq(a, "text/html"@)) {
            (Some(j), Some(h)) => j < h,
            (Some(_), None) => true,
            _ => false,
        },
    }
}

/// Check if the Accept header indicates JSON is preferred. Positions are
/// compared in characters, which order them as their byte offsets do.
pub fn wants_json(accept: Option<&str>) -> (r: bool)
    ensures
        r == prefers_json(
            match accept {
                Some(a) => Some(a@),
                None => None,
            },
        ),
{
    match accept {
        None => false,
        Some(a) => {
            let cs = chars_of(a);
            let j = find_chars_from(&cs, &chars_of("application/json"), 0);
            let h = find_chars_from(&cs, &chars_of("text/html"), 0);
            match (j, h) {
                (Some(j), Some(h)) => j < h,
                (Some(_), None) => true,
                _ => false,
            }
        },
    }
}


/// What `Path::file_name` gives for a path: its final component when that
/// is a normal one.
pub uninterp spec fn path_file_name(p: Seq<char>) -> Option<Seq<char>>;

/// What `Path::parent` gives for a path: the path without its final
/// component, if it has one.
pub uninterp spec fn path_parent(p: Seq<char>) -> Option<Seq<char>>;

/// The text of each component that `Path::components` yields for a path:
/// `/` for the root, `.` for a leading current directory, `..` for a parent
/// directory, and the name itself for a normal component.
pub uninterp spec fn path_components(p: Seq<char>) -> Seq<Seq<char>>;

pub open spec fn opt_view(o: Option<String>) -> Option<Seq<char>> {
    match o {
        Some(s) => Some(s@),
        None => None,
    }
}

/// Calls `Path::file_name` on `p` (which is valid UTF-8, so its components
/// are too); the result is named, not spelled out.
#[verifier::external_body]
fn file_name_of(p: &str) -> (r: Option<String>)
    ensures
        opt_view(r) == path_file_name(p@),
{
    std::path::Path::new(p).file_name().map(|n| n.to_string_lossy().into_owned())
}

/// Calls `Path::parent` on `p`; the result is named, not spelled out.
#[verifier::external_body]
pub(crate) fn parent_of(p: &str) -> (r: Option<String>)
    ensures
        opt_view(r) == path_parent(p@),
{
    std::path::Path::new(p).parent().map(|q| q.to_string_lossy().into_owned())
}

/// Calls `Path::components` on `p` and gives the text of each component
/// (`Component::as_os_str`); the result is named, not spelled out.
#[verifier::external_body]
fn components_of(p: &str) -> (r: Vec<String>)
    ensures
        crate::mounts::string_views(r@) == path_components(p@),
{
    std::path::Path::new(p).components().map(|c| c.as_os_str().to_string_lossy().into_owned()).collect()
}

/// The display name of an entry: its file name, or `default` when the path
/// has none.
pub fn display_name(path: &str, default: &str) -> (r: String)
    ensures
        r@ == match path_file_name(path@) {
            Some(n) => n,
            None => default@,
        },
{
    match file_name_of(path) {
        Some(n) => n,
        None => String::from_str(default),
    }
}

/// The normal components left after resolving `..` against the ones
/// before it (a `..` with nothing before it is dropped), as a fold over the
/// components pushes and pops a path buffer.
pub open spec fn resolve_parts(comps: Seq<Seq<char>>) -> Seq<Seq<char>>
    decreases comps.len(),
{
    if comps.len() == 0 {
        Seq::empty()
    } else {
        let acc = resolve_parts(comps.drop_last());
        let c = comps.last();
        if c == ".."@ {
            if acc.len() > 0 {
                acc.drop_last()
            } else {
                acc
            }
        } else if c == "/"@ || c == "."@ {
            acc
        } else {
            acc.push(c)
        }
    }
}

/// Parts joined with `/` between them.
pub open spec fn join_parts(parts: Seq<Seq<char>>) -> Seq<char>
    decreases parts.len(),
{
    if parts.len() == 0 {
        Seq::empty()
    } else if parts.len() == 1 {
        parts[0]
    } else {
        join_parts(parts.drop_last()) + seq!['/'] + parts.last()
    }
}

/// A path made relative and free of `.` and `..`.
pub open spec fn normalized_path(p: Seq<char>) -> Seq<char> {
    join_parts(resolve_parts(path_components(p)))
}

fn seq_eq_str(v: &String, lit: &str) -> (r: bool)
    ensures
        r == (v@ == lit@),
{
    let w = String::from_str(lit);
    *v == w
}

pub fn normalize_path(p: &str) -> (r: String)
    ensures
        r@ == normalized_path(p@),
{
    let comps = components_of(p);
    let ghost cs = crate::mounts::string_views(comps@);
    let mut acc: Vec<String> = Vec::new();
    let mut i: usize = 0;
    while i < comps.len()
        invariant
            i <= comps.len(),
            cs == crate::mounts::string_views(comps@),
            crate::mounts::string_views(acc@) == resolve_parts(cs.take(i as int)),
        decreases comps.len() - i,
    {
        let ghost before = crate::mounts::string_views(acc@);
        assert(cs.take(i + 1).drop_last() =~= cs.take(i as int));
        assert(cs.take(i + 1).last() == comps@[i as int]@);
        let c = &comps[i];
        if seq_eq_str(c, "..") {
            if acc.len() > 0 {
                acc.pop();
                assert(crate::mounts::string_views(acc@) =~= before.drop_last());
            }
        } else if seq_eq_str(c, "/") || seq_eq_str(c, ".") {
        } else {
            acc.push(c.clone());
            assert(crate::mounts::string_views(acc@) =~= before.push(c@));
        }
        i += 1;
    }
    assert(cs.take(comps.len() as int) =~= cs);
    let ghost parts = crate::mounts::string_views(acc@);
    let mut out = String::new();
    let mut k: usize = 0;
    while k < acc.len()
        invariant
            k <= acc.len(),
            parts == crate::mounts::string_views(acc@),
            out@ == join_parts(parts.take(k as int)),
        decreases acc.len() - k,
    {
        assert(parts.take(k + 1).drop_last() =~= parts.take(k as int));
        if k > 0 {
            push_char(&mut out, '/');
        }
        push_str(&mut out, acc[k].as_str());
        k += 1;
        if k == 1 {
            assert(out@ =~= join_parts(parts.take(1)));
        }
    }
    assert(parts.take(acc.len() as int) =~= parts);
    out
}

/// The bucket path that a relative URL on a page in `dir` refers to:
/// `./x` and `x` are in `dir`, `../x` in the parent of `dir`, and `/x` is
/// already a bucket path.
pub open spec fn referred_path(url: Seq<char>, dir: Seq<char>) -> Seq<char> {
    if starts_with(url, "./"@) {
        dir + seq!['/'] + url.skip(2)
    } else if starts_with(url, "../"@) {
        (match path_parent(dir) {
            Some(p) => p,
            None => Seq::<char>::empty(),
        }) + seq!['/'] + url.skip(3)
    } else if starts_with(url, "/"@) {
        url
    } else {
        dir + seq!['/'] + url
    }
}

/// The gateway URL of a relative URL found on a page of a bucket:
/// `<host without trailing slashes>/gw/<bucket id>/<normalised path>`.
pub open spec fn gateway_url(url: Seq<char>, dir: Seq<char>, bucket_id: u128, host: Seq<char>) -> Seq<char> {
    crate::paths::trim_end(host, '/') + "/gw/"@ + id_text(bucket_id) + seq!['/'] + normalized_path(
        referred_path(url, dir),
    )
}

fn skip_str(s: &str, n: usize) -> (r: String)
    requires
        n <= s@.len(),
    ensures
        r@ == s@.skip(n as int),
{
    let cs = chars_of(s);
    let mut r = String::new();
    let mut i = n;
    while i < cs.len()
        invariant
            n <= i <= cs.len(),
            cs@ == s@,
            r@ == s@.subrange(n as int, i as int),
        decreases cs.len() - i,
    {
        push_char(&mut r, cs[i]);
        i += 1;
        assert(r@ =~= s@.subrange(n as int, i as int));
    }
    assert(s@.subrange(n as int, cs.len() as int) =~= s@.skip(n as int));
    r
}

/// Resolves a relative URL to an absolute gateway URL
pub fn resolve_relative_url(relative_url: &str, current_dir: &str, bucket_id: u128, host: &str) -> (r:
    String)
    ensures
        r@ == gateway_url(relative_url@, current_dir@, bucket_id, host@),
{
    proof {
        reveal_strlit("./");
        reveal_strlit("../");
        reveal_strlit("/");
    }
    let u = chars_of(relative_url);
    let path = if starts_with_chars(&u, &chars_of("./")) {
        let mut p = String::from_str(current_dir);
        push_char(&mut p, '/');
        let rest = skip_str(relative_url, 2);
        push_str(&mut p, rest.as_str());
        p
    } else if starts_with_chars(&u, &chars_of("../")) {
        let mut p = match parent_of(current_dir) {
            Some(q) => q,
            None => String::new(),
        };
        push_char(&mut p, '/');
        let rest = skip_str(relative_url, 3);
        push_str(&mut p, rest.as_str());
        p
    } else if starts_with_chars(&u, &chars_of("/")) {
        String::from_str(relative_url)
    } else {
        let mut p = String::from_str(current_dir);
        push_char(&mut p, '/');
        push_str(&mut p, relative_url);
        p
    };
    assert(path@ =~= referred_path(relative_url@, current_dir@));
    let normalized = normalize_path(path.as_str());
    let h = chars_of(host);
    let mut e = h.len();
    while e > 0 && h[e - 1] == '/'
        invariant
            e <= h.len(),
            forall|j: int| e <= j < h.len() ==> h@[j] == '/',
        decreases e,
    {
        e -= 1;
    }
    proof {
        crate::paths::lemma_trim_end(h@, '/', e as int);
    }
    let mut r = String::new();
    push_range(&mut r, &h, 0, e);
    assert(h@.subrange(0, e as int) =~= h@.take(e as int));
    push_str(&mut r, "/gw/");
    let id = id_to_text(bucket_id);
    push_str(&mut r, id.as_str());
    push_char(&mut r, '/');
    push_str(&mut r, normalized.as_str());
    assert(r@ =~= crate::paths::trim_end(host@, '/') + "/gw/"@ + id_text(bucket_id) + seq!['/']
        + normalized@);
    r
}

} // verus!
