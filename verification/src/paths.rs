//! Bucket paths as the gateway shows them: breadcrumb segments and the
//! "up" link.

use vstd::prelude::*;

use crate::text::{chars_of, string_of};
use vstd::string::*;
use crate::version::{split_chars, split_on, views};

verus! {

/// Path segment for breadcrumb navigation
pub struct PathSegment {
    pub name: String,
    pub path: String,
}

impl View for PathSegment {
    type V = (Seq<char>, Seq<char>);

    open spec fn view(&self) -> (Seq<char>, Seq<char>) {
        (self.name@, self.path@)
    }
}

/// `s` without its leading run of `c`.
pub open spec fn trim_start(s: Seq<char>, c: char) -> Seq<char>
    decreases s.len(),
{
    if s.len() > 0 && s[0] == c {
        trim_start(s.drop_first(), c)
    } else {
        s
    }
}

/// `s` without its trailing run of `c`.
pub open spec fn trim_end(s: Seq<char>, c: char) -> Seq<char>
    decreases s.len(),
{
    if s.len() > 0 && s.last() == c {
        trim_end(s.drop_last(), c)
    } else {
        s
    }
}

/// The position of the last `c` in `s` (`str::rfind`).
pub open spec fn rfind(s: Seq<char>, c: char) -> Option<int>
    decreases s.len(),
{
    if s.len() == 0 {
        None
    } else if s.last() == c {
        Some(s.len() - 1)
    } else {
        rfind(s.drop_last(), c)
    }
}

/// Breadcrumbs for the pieces of a path: one per non-empty piece, whose
/// path is the previous breadcrumb's path, a `/`, and the piece.
pub open spec fn crumbs(pieces: Seq<Seq<char>>) -> Seq<(Seq<char>, Seq<char>)>
    decreases pieces.len(),
{
    if pieces.len() == 0 {
        Seq::empty()
    } else {
        let prev = crumbs(pieces.drop_last());
        let part = pieces.last();
        if part.len() == 0 {
            prev
        } else {
            let base = if prev.len() == 0 { Seq::<char>::empty() } else { prev.last().1 };
            prev.push((part, base + seq!['/'] + part))
        }
    }
}

pub open spec fn path_segments(path: Seq<char>) -> Seq<(Seq<char>, Seq<char>)> {
    if path == "/"@ {
        Seq::empty()
    } else {
        crumbs(split_on(trim_start(path, '/'), '/'))
    }
}

pub open spec fn segment_views(v: Seq<PathSegment>) -> Seq<(Seq<char>, Seq<char>)> {
    Seq::new(v.len(), |i: int| v[i]@)
}

/// What the "up" link of a path points at.
pub open spec fn parent_path(path: Seq<char>) -> Seq<char> {
    if path == "/"@ {
        "/"@
    } else {
        let t = trim_end(path, '/');
        match rfind(t, '/') {
            Some(pos) => if pos == 0 {
                "/"@
            } else {
                t.take(pos)
            },
            None => "/"@,
        }
    }
}

proof fn lemma_trim_start(s: Seq<char>, c: char, k: int)
    requires
        0 <= k <= s.len(),
        forall|j: int| 0 <= j < k ==> s[j] == c,
        k == s.len() || s[k] != c,
    ensures
        trim_start(s, c) == s.skip(k),
    decreases k,
{
    if k == 0 {
        assert(s.skip(0) =~= s);
    } else {
        let t = s.drop_first();
        assert forall|j: int| 0 <= j < k - 1 implies t[j] == c by {
            assert(t[j] == s[j + 1]);
        }
        lemma_trim_start(t, c, k - 1);
        assert(t.skip(k - 1) =~= s.skip(k));
    }
}

/// Trimming a trailing run of `c` that starts at `k` leaves the first `k`
/// characters.
pub(crate) proof fn lemma_trim_end(s: Seq<char>, c: char, k: int)
    requires
        0 <= k <= s.len(),
        forall|j: int| k <= j < s.len() ==> s[j] == c,
        k == 0 || s[k - 1] != c,
    ensures
        trim_end(s, c) == s.take(k),
    decreases s.len() - k,
{
    if k == s.len() {
        assert(s.take(k) =~= s);
    } else {
        let t = s.drop_last();
        lemma_trim_end(t, c, k);
        assert(t.take(k) =~= s.take(k));
    }
}

proof fn lemma_rfind(s: Seq<char>, c: char, k: int)
    requires
        0 <= k <= s.len(),
        forall|j: int| k <= j < s.len() ==> s[j] != c,
    ensures
        rfind(s, c) == rfind(s.take(k), c),
    decreases s.len() - k,
{
    if k == s.len() {
        assert(s.take(k) =~= s);
    } else {
        lemma_rfind(s.drop_last(), c, k);
        assert(s.drop_last().take(k) =~= s.take(k));
    }
}

pub fn is_root(path: &Vec<char>) -> (r: bool)
    ensures
        r == (path@ == "/"@),
{
    proof {
        reveal_strlit("/");
    }
    if path.len() == 1 && path[0] == '/' {
        assert(path@ =~= "/"@);
        true
    } else {
        false
    }
}

/// Build path segments for breadcrumb navigation
pub fn build_path_segments(path: &str) -> (r: Vec<PathSegment>)
    ensures
        segment_views(r@) == path_segments(path@),
{
    let cs = chars_of(path);
    if is_root(&cs) {
        let r: Vec<PathSegment> = Vec::new();
        assert(segment_views(r@) =~= Seq::<(Seq<char>, Seq<char>)>::empty());
        return r;
    }
    let mut k: usize = 0;
    while k < cs.len() && cs[k] == '/'
        invariant
            k <= cs.len(),
            forall|j: int| 0 <= j < k ==> cs@[j] == '/',
        decreases cs.len() - k,
    {
        k += 1;
    }
    proof {
        lemma_trim_start(cs@, '/', k as int);
        assert(cs@.subrange(k as int, cs@.len() as int) =~= cs@.skip(k as int));
    }
    let pieces = split_chars(&cs, k, '/');
    let ghost ps = views(pieces@);
    let mut segments: Vec<PathSegment> = Vec::new();
    let mut current: Vec<char> = Vec::new();
    let mut i: usize = 0;
    assert(ps.take(0) =~= Seq::<Seq<char>>::empty());
    assert(segment_views(segments@) =~= crumbs(ps.take(0)));
    while i < pieces.len()
        invariant
            i <= pieces.len(),
            ps == views(pieces@),
            segment_views(segments@) == crumbs(ps.take(i as int)),
            current@ == (if segments@.len() == 0 { Seq::<char>::empty() } else { segments@.last()@.1 }),
        decreases pieces.len() - i,
    {
        let ghost before = ps.take(i as int);
        assert(ps.take(i + 1).drop_last() =~= before);
        assert(ps.take(i + 1).last() == pieces@[i as int]@);
        let part = &pieces[i];
        if part.len() > 0 {
            let ghost old_current = current@;
            current.push('/');
            let mut j: usize = 0;
            while j < part.len()
                invariant
                    j <= part.len(),
                    current@ == old_current + seq!['/'] + part@.take(j as int),
                decreases part.len() - j,
            {
                current.push(part[j]);
                j += 1;
                assert(current@ =~= old_current + seq!['/'] + part@.take(j as int));
            }
            assert(part@.take(part.len() as int) =~= part@);
            let ghost old_views = segment_views(segments@);
            segments.push(PathSegment { name: string_of(part), path: string_of(&current) });
            assert(segment_views(segments@) =~= old_views.push((part@, current@)));
        }
        i += 1;
    }
    assert(ps.take(pieces.len() as int) =~= ps);
    segments
}

/// Get parent path for "Up" navigation
pub fn get_parent_path(path: &str) -> (r: String)
    ensures
        r@ == parent_path(path@),
{
    let cs = chars_of(path);
    if is_root(&cs) {
        return String::from_str("/");
    }
    let mut e: usize = cs.len();
    while e > 0 && cs[e - 1] == '/'
        invariant
            e <= cs.len(),
            forall|j: int| e <= j < cs.len() ==> cs@[j] == '/',
        decreases e,
    {
        e -= 1;
    }
    proof {
        lemma_trim_end(cs@, '/', e as int);
    }
    let ghost t = cs@.take(e as int);
    let mut p: usize = e;
    while p > 0 && cs[p - 1] != '/'
        invariant
            p <= e <= cs.len(),
            t == cs@.take(e as int),
            forall|j: int| p <= j < e ==> cs@[j] != '/',
        decreases p,
    {
        p -= 1;
    }
    proof {
        assert forall|j: int| p <= j < t.len() implies t[j] != '/' by {
            assert(t[j] == cs@[j]);
        }
        lemma_rfind(t, '/', p as int);
        assert(t.take(p as int) =~= cs@.take(p as int));
    }
    if p == 0 {
        assert(rfind(t.take(0), '/') is None);
        return String::from_str("/");
    }
    let slash = p - 1;
    assert(t.take(p as int).drop_last() =~= t.take(slash as int));
    assert(rfind(t.take(p as int), '/') == Some(slash as int));
    if slash == 0 {
        return String::from_str("/");
    }
    let mut v: Vec<char> = Vec::new();
    let mut k: usize = 0;
    while k < slash
        invariant
            k <= slash < cs.len(),
            v@ == cs@.take(k as int),
        decreases slash - k,
    {
        v.push(cs[k]);
        k += 1;
        assert(v@ =~= cs@.take(k as int));
    }
    assert(t.take(slash as int) =~= cs@.take(slash as int));
    string_of(&v)
}


pub open spec fn free_of(s: Seq<char>, c: char) -> bool {
    forall|j: int| 0 <= j < s.len() ==> s[j] != c
}

/// Each breadcrumb names a non-empty piece without `/`, and its path is the
/// path of the breadcrumb before it (empty for the first) followed by `/`
/// and the name.
pub open spec fn linked(c: Seq<(Seq<char>, Seq<char>)>) -> bool {
    forall|k: int|
        0 <= k < c.len() ==> {
            &&& (#[trigger] c[k]).0.len() > 0
            &&& free_of(c[k].0, '/')
            &&& c[k].1 == (if k == 0 { Seq::<char>::empty() } else { c[k - 1].1 }) + seq!['/']
                + c[k].0
        }
}

proof fn lemma_split_free(s: Seq<char>, sep: char)
    ensures
        forall|i: int| 0 <= i < split_on(s, sep).len() ==> free_of(#[trigger] split_on(s, sep)[i], sep),
    decreases s.len(),
{
    if s.len() > 0 {
        lemma_split_free(s.drop_last(), sep);
        crate::version::lemma_split_on_nonempty(s.drop_last(), sep);
        let prev = split_on(s.drop_last(), sep);
        if s.last() != sep {
            assert(free_of(prev.last().push(s.last()), sep)) by {
                let q = prev.last().push(s.last());
                assert forall|j: int| 0 <= j < q.len() implies q[j] != sep by {
                    if j < prev.last().len() {
                        assert(q[j] == prev[prev.len() - 1][j]);
                    }
                }
            }
        }
        let cur = split_on(s, sep);
        assert forall|i: int| 0 <= i < cur.len() implies free_of(#[trigger] cur[i], sep) by {
            if i < prev.len() && !(s.last() != sep && i == prev.len() - 1) {
                assert(cur[i] == prev[i]);
            }
        }
    }
}

proof fn lemma_crumbs_linked(pieces: Seq<Seq<char>>)
    requires
        forall|i: int| 0 <= i < pieces.len() ==> free_of(#[trigger] pieces[i], '/'),
    ensures
        linked(crumbs(pieces)),
    decreases pieces.len(),
{
    if pieces.len() > 0 {
        let init = pieces.drop_last();
        assert forall|i: int| 0 <= i < init.len() implies free_of(#[trigger] init[i], '/') by {
            assert(init[i] == pieces[i]);
        }
        lemma_crumbs_linked(init);
        let prev = crumbs(init);
        let c = crumbs(pieces);
        assert(free_of(pieces[pieces.len() - 1], '/'));
        assert forall|k: int| 0 <= k < c.len() implies {
            &&& (#[trigger] c[k]).0.len() > 0
            &&& free_of(c[k].0, '/')
            &&& c[k].1 == (if k == 0 { Seq::<char>::empty() } else { c[k - 1].1 }) + seq!['/']
                + c[k].0
        } by {
            if k < prev.len() {
                assert(c[k] == prev[k]);
                if k > 0 {
                    assert(c[k - 1] == prev[k - 1]);
                }
            }
        }
    }
}

proof fn lemma_parent_of_crumb(base: Seq<char>, name: Seq<char>)
    requires
        name.len() > 0,
        free_of(name, '/'),
    ensures
        parent_path(base + seq!['/'] + name) == (if base.len() == 0 { "/"@ } else { base }),
{
    reveal_strlit("/");
    let p = base + seq!['/'] + name;
    assert(p.len() >= 2);
    assert(p != "/"@);
    assert(p.last() == name.last());
    assert(trim_end(p, '/') == p) by {
        lemma_trim_end(p, '/', p.len() as int);
        assert(p.take(p.len() as int) =~= p);
    }
    let b = base.len() as int;
    assert forall|j: int| b + 1 <= j < p.len() implies p[j] != '/' by {
        assert(p[j] == name[j - b - 1]);
    }
    lemma_rfind(p, '/', b + 1);
    assert(p.take(b + 1).last() == '/');
    assert(rfind(p.take(b + 1), '/') == Some(b));
    assert(p.take(b) =~= base);
}

/// The "up" link of every breadcrumb leads to the breadcrumb before it, and
/// that of the first breadcrumb leads to the root.
pub proof fn lemma_parent_of_segment(path: Seq<char>, k: int)
    requires
        0 <= k < path_segments(path).len(),
    ensures
        parent_path(path_segments(path)[k].1) == (if k == 0 {
            "/"@
        } else {
            path_segments(path)[k - 1].1
        }),
{
    let pieces = split_on(trim_start(path, '/'), '/');
    lemma_split_free(trim_start(path, '/'), '/');
    lemma_crumbs_linked(pieces);
    let c = path_segments(path);
    assert(c == crumbs(pieces));
    assert(c[k].0.len() > 0);
    let base = if k == 0 { Seq::<char>::empty() } else { c[k - 1].1 };
    lemma_parent_of_crumb(base, c[k].0);
    if k > 0 {
        assert(c[k - 1].1 == (if k - 1 == 0 { Seq::<char>::empty() } else { c[k - 2].1 })
            + seq!['/'] + c[k - 1].0);
        assert(c[k - 1].1.len() > 0);
    }
}



/// No two `/` follow each other in `s`.
pub open spec fn no_double_slash(s: Seq<char>) -> bool {
    forall|j: int| 0 <= j < s.len() - 1 ==> !(#[trigger] s[j] == '/' && s[j + 1] == '/')
}

proof fn lemma_split_single(s: Seq<char>, sep: char)
    requires
        free_of(s, sep),
    ensures
        split_on(s, sep) == seq![s],
    decreases s.len(),
{
    if s.len() == 0 {
        assert(s =~= Seq::<char>::empty());
    } else {
        let init = s.drop_last();
        assert forall|j: int| 0 <= j < init.len() implies init[j] != sep by {
            assert(init[j] == s[j]);
        }
        lemma_split_single(init, sep);
        assert(s.last() == s[s.len() - 1]);
        assert(init.push(s.last()) =~= s);
        assert(seq![init].update(0, init.push(s.last())) =~= seq![s]);
    }
}

proof fn lemma_split_append(a: Seq<char>, b: Seq<char>, sep: char)
    requires
        free_of(b, sep),
    ensures
        split_on(a + seq![sep] + b, sep) == split_on(a, sep).push(b),
    decreases b.len(),
{
    let s = a + seq![sep] + b;
    if b.len() == 0 {
        assert(s.drop_last() =~= a);
        assert(s.last() == sep);
        assert(b =~= Seq::<char>::empty());
    } else {
        let bi = b.drop_last();
        assert forall|j: int| 0 <= j < bi.len() implies bi[j] != sep by {
            assert(bi[j] == b[j]);
        }
        lemma_split_append(a, bi, sep);
        assert(s.drop_last() =~= a + seq![sep] + bi);
        assert(s.last() == b[b.len() - 1]);
        let prev = split_on(a, sep).push(bi);
        assert(bi.push(s.last()) =~= b);
        assert(prev.update(prev.len() - 1, prev.last().push(s.last())) =~= split_on(a, sep).push(b));
    }
}

proof fn lemma_rfind_found(s: Seq<char>, c: char)
    ensures
        match rfind(s, c) {
            Some(p) => 0 <= p < s.len() && s[p] == c && forall|j: int| p < j < s.len() ==> s[j] != c,
            None => free_of(s, c),
        },
    decreases s.len(),
{
    if s.len() > 0 && s.last() != c {
        let init = s.drop_last();
        lemma_rfind_found(init, c);
        match rfind(init, c) {
            Some(p) => {
                assert(s[p] == init[p]);
                assert forall|j: int| p < j < s.len() implies s[j] != c by {
                    if j < init.len() {
                        assert(s[j] == init[j]);
                    }
                }
            },
            None => {
                assert forall|j: int| 0 <= j < s.len() implies s[j] != c by {
                    if j < init.len() {
                        assert(s[j] == init[j]);
                    }
                }
            },
        }
    }
}

/// Breadcrumbs of a relative path whose pieces are all non-empty: the last
/// one's path is the whole path behind a `/`.
proof fn lemma_crumbs_of_clean(s: Seq<char>)
    requires
        s.len() > 0,
        s[0] != '/',
        s.last() != '/',
        no_double_slash(s),
    ensures
        crumbs(split_on(s, '/')).len() > 0,
        crumbs(split_on(s, '/')).last().1 == seq!['/'] + s,
    decreases s.len(),
{
    lemma_rfind_found(s, '/');
    match rfind(s, '/') {
        None => {
            lemma_split_single(s, '/');
            let one = seq![s];
            assert(one.drop_last() =~= Seq::<Seq<char>>::empty());
            assert(one.last() == s);
            assert(crumbs(one) == crumbs(one.drop_last()).push((s, Seq::<char>::empty() + seq!['/'] + s)));
            assert(Seq::<char>::empty() + seq!['/'] + s =~= seq!['/'] + s);
        },
        Some(pos) => {
            let a = s.take(pos);
            let b = s.skip(pos + 1);
            assert(pos > 0);
            assert(pos < s.len() - 1);
            assert(s[pos - 1] != '/');
            assert(a =~= s.subrange(0, pos));
            assert forall|j: int| 0 <= j < b.len() implies b[j] != '/' by {
                assert(b[j] == s[pos + 1 + j]);
            }
            assert(a.last() == s[pos - 1]);
            assert(a[0] == s[0]);
            assert forall|j: int| 0 <= j < a.len() - 1 implies !(#[trigger] a[j] == '/' && a[j + 1] == '/') by {
                assert(a[j] == s[j] && a[j + 1] == s[j + 1]);
            }
            lemma_crumbs_of_clean(a);
            assert(a + seq!['/'] + b =~= s);
            lemma_split_append(a, b, '/');
            let ps = split_on(a, '/').push(b);
            assert(ps.drop_last() =~= split_on(a, '/'));
            assert(ps.last() == b);
            assert(b.len() > 0);
            let prev = crumbs(split_on(a, '/'));
            assert(crumbs(ps) == prev.push((b, prev.last().1 + seq!['/'] + b)));
            assert(seq!['/'] + a + seq!['/'] + b =~= seq!['/'] + s);
        },
    }
}

/// For a path that starts with `/`, has no empty piece and no trailing `/`,
/// the last breadcrumb's path is the path itself, so the "up" link of the
/// page leads to the breadcrumb before the last one (or to the root when
/// there is one breadcrumb).
pub proof fn lemma_last_segment_is_path(path: Seq<char>)
    requires
        path.len() > 0,
        path[0] == '/',
        path.last() != '/',
        no_double_slash(path),
    ensures
        path_segments(path).len() > 0,
        path_segments(path).last().1 == path,
        parent_path(path) == (if path_segments(path).len() == 1 {
            "/"@
        } else {
            path_segments(path)[path_segments(path).len() - 2].1
        }),
{
    reveal_strlit("/");
    assert(path != "/"@) by {
        if path == "/"@ {
            assert(path.last() == '/');
        }
    }
    assert(path.len() >= 2);
    assert(path[1] != '/');
    lemma_trim_start(path, '/', 1);
    let t = path.skip(1);
    assert(t[0] == path[1]);
    assert(t.last() == path.last());
    assert forall|j: int| 0 <= j < t.len() - 1 implies !(#[trigger] t[j] == '/' && t[j + 1] == '/') by {
        assert(t[j] == path[j + 1] && t[j + 1] == path[j + 2]);
    }
    lemma_crumbs_of_clean(t);
    assert(seq!['/'] + t =~= path);
    let segs = path_segments(path);
    assert(segs == crumbs(split_on(t, '/')));
    lemma_parent_of_segment(path, segs.len() - 1);
    assert(segs[segs.len() - 1] == segs.last());
}

} // verus!
