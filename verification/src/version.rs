//! Release version strings such as `v0.1.9` and their ordering.

use vstd::prelude::*;

use crate::text::chars_of;

verus! {

/// `s` without its leading run of `'v'` characters.
pub open spec fn trim_leading_v(s: Seq<char>) -> Seq<char>
    decreases s.len(),
{
    if s.len() > 0 && s[0] == 'v' {
        trim_leading_v(s.drop_first())
    } else {
        s
    }
}

/// The pieces of `s` between occurrences of `sep`, as `str::split` yields
/// them: empty pieces included, and one piece for the empty string.
pub open spec fn split_on(s: Seq<char>, sep: char) -> Seq<Seq<char>>
    decreases s.len(),
{
    if s.len() == 0 {
        seq![Seq::<char>::empty()]
    } else {
        let prev = split_on(s.drop_last(), sep);
        if s.last() == sep {
            prev.push(Seq::<char>::empty())
        } else {
            prev.update(prev.len() - 1, prev.last().push(s.last()))
        }
    }
}

pub open spec fn is_digit(c: char) -> bool {
    '0' <= c && c <= '9'
}

pub open spec fn all_digits(s: Seq<char>) -> bool {
    forall|i: int| 0 <= i < s.len() ==> is_digit(#[trigger] s[i])
}

pub open spec fn digit_value(c: char) -> nat {
    ((c as int) - ('0' as int)) as nat
}

/// The number that a run of decimal digits denotes.
pub open spec fn digits_value(s: Seq<char>) -> nat
    decreases s.len(),
{
    if s.len() == 0 {
        0
    } else {
        digits_value(s.drop_last()) * 10 + digit_value(s.last())
    }
}

/// What `str::parse::<u32>` gives for `p`: an optional `'+'`, then at least
/// one ASCII digit, with a value that fits in 32 bits.
pub open spec fn parse_u32(p: Seq<char>) -> Option<u32> {
    let d = if p.len() > 0 && p[0] == '+' { p.drop_first() } else { p };
    if p.len() == 0 || d.len() == 0 || !all_digits(d) || digits_value(d) > u32::MAX {
        None
    } else {
        Some(digits_value(d) as u32)
    }
}

/// The pieces that parse as numbers, in order (`filter_map` of `parse_u32`).
pub open spec fn parsed_numbers(pieces: Seq<Seq<char>>) -> Seq<u32>
    decreases pieces.len(),
{
    if pieces.len() == 0 {
        Seq::<u32>::empty()
    } else {
        let prev = parsed_numbers(pieces.drop_last());
        match parse_u32(pieces.last()) {
            Some(v) => prev.push(v),
            None => prev,
        }
    }
}

pub open spec fn nth_or_zero(s: Seq<u32>, i: int) -> u32 {
    if 0 <= i < s.len() {
        s[i]
    } else {
        0
    }
}

/// The (major, minor, patch) triple that a version string stands for.
pub open spec fn version_key(v: Seq<char>) -> (u32, u32, u32) {
    let nums = parsed_numbers(split_on(trim_leading_v(v), '.'));
    (nth_or_zero(nums, 0), nth_or_zero(nums, 1), nth_or_zero(nums, 2))
}

/// Lexicographic `a > b` on triples.
pub open spec fn triple_gt(a: (u32, u32, u32), b: (u32, u32, u32)) -> bool {
    a.0 > b.0 || (a.0 == b.0 && (a.1 > b.1 || (a.1 == b.1 && a.2 > b.2)))
}

pub open spec fn newer(current: Seq<char>, latest: Seq<char>) -> bool {
    triple_gt(version_key(latest), version_key(current))
}

pub proof fn lemma_split_on_nonempty(s: Seq<char>, sep: char)
    ensures
        split_on(s, sep).len() >= 1,
    decreases s.len(),
{
    if s.len() > 0 {
        lemma_split_on_nonempty(s.drop_last(), sep);
    }
}

/// Parses one piece the way `str::parse::<u32>` does.
pub fn parse_u32_chars(p: &Vec<char>) -> (r: Option<u32>)
    ensures
        r == parse_u32(p@),
{
    let n = p.len();
    if n == 0 {
        return None;
    }
    let start: usize = if p[0] == '+' { 1 } else { 0 };
    let ghost d = if p@.len() > 0 && p@[0] == '+' { p@.drop_first() } else { p@ };
    assert(d =~= p@.subrange(start as int, n as int));
    if start == n {
        return None;
    }
    let mut value: u64 = 0;
    let mut i: usize = start;
    while i < n
        invariant
            start <= i <= n,
            n == p@.len(),
            d == p@.subrange(start as int, n as int),
            d == (if p@.len() > 0 && p@[0] == '+' { p@.drop_first() } else { p@ }),
            n > 0,
            all_digits(p@.subrange(start as int, i as int)),
            value == digits_value(p@.subrange(start as int, i as int)),
            value <= u32::MAX,
        decreases n - i,
    {
        let c = p[i];
        if !('0' <= c && c <= '9') {
            assert(!all_digits(d)) by {
                assert(d[i - start] == c);
            }
            return None;
        }
        let ghost prev = p@.subrange(start as int, i as int);
        let ghost next = p@.subrange(start as int, i + 1);
        assert(next.drop_last() =~= prev);
        let dv = (c as u64) - ('0' as u64);
        let nv = value * 10 + dv;
        assert(nv == digits_value(next));
        i += 1;
        assert(all_digits(next)) by {
            assert forall|k: int| 0 <= k < next.len() implies is_digit(#[trigger] next[k]) by {
                if k < prev.len() {
                    assert(next[k] == prev[k]);
                }
            }
        }
        if nv > 0xffff_ffff {
            // Every further digit only makes the value larger.
            proof {
                if all_digits(d) {
                    lemma_digits_value_grows(d, i - start);
                    assert(d.take(i - start) =~= next);
                }
            }
            return None;
        }
        value = nv;
    }
    assert(p@.subrange(start as int, n as int) =~= d);
    Some(value as u32)
}

/// A digit string is at least as large as any of its prefixes.
pub proof fn lemma_digits_value_grows(s: Seq<char>, k: int)
    requires
        0 <= k <= s.len(),
        all_digits(s),
    ensures
        digits_value(s.take(k)) <= digits_value(s),
    decreases s.len() - k,
{
    if k < s.len() {
        lemma_digits_value_grows(s, k + 1);
        assert(s.take(k + 1).drop_last() =~= s.take(k));
    } else {
        assert(s.take(k) =~= s);
    }
}


/// The views of a sequence of character vectors.
pub open spec fn views(v: Seq<Vec<char>>) -> Seq<Seq<char>> {
    Seq::new(v.len(), |i: int| v[i]@)
}

proof fn lemma_trim_leading_v(s: Seq<char>, k: int)
    requires
        0 <= k <= s.len(),
        forall|j: int| 0 <= j < k ==> s[j] == 'v',
        k == s.len() || s[k] != 'v',
    ensures
        trim_leading_v(s) == s.skip(k),
    decreases k,
{
    if k == 0 {
        assert(s.skip(0) =~= s);
    } else {
        let t = s.drop_first();
        assert forall|j: int| 0 <= j < k - 1 implies t[j] == 'v' by {
            assert(t[j] == s[j + 1]);
        }
        lemma_trim_leading_v(t, k - 1);
        assert(t.skip(k - 1) =~= s.skip(k));
    }
}

/// Splits `s[start..]` at every `sep`.
pub fn split_chars(s: &Vec<char>, start: usize, sep: char) -> (r: Vec<Vec<char>>)
    requires
        start <= s.len(),
    ensures
        views(r@) == split_on(s@.subrange(start as int, s.len() as int), sep),
{
    let mut done: Vec<Vec<char>> = Vec::new();
    let mut cur: Vec<char> = Vec::new();
    let mut i: usize = start;
    assert(views(done@).push(cur@) =~= split_on(s@.subrange(start as int, i as int), sep));
    while i < s.len()
        invariant
            start <= i <= s.len(),
            views(done@).push(cur@) == split_on(s@.subrange(start as int, i as int), sep),
        decreases s.len() - i,
    {
        let c = s[i];
        let ghost t = s@.subrange(start as int, i + 1);
        let ghost prev = views(done@).push(cur@);
        assert(t.drop_last() =~= s@.subrange(start as int, i as int));
        assert(t.last() == c);
        if c == sep {
            done.push(cur);
            cur = Vec::new();
            assert(views(done@).push(cur@) =~= prev.push(Seq::<char>::empty()));
        } else {
            let ghost old_cur = cur@;
            cur.push(c);
            assert(views(done@).push(cur@) =~= prev.update(prev.len() - 1, old_cur.push(c)));
        }
        i += 1;
    }
    let ghost fin = views(done@).push(cur@);
    done.push(cur);
    assert(views(done@) =~= fin);
    done
}

/// The pieces that parse as numbers, in order.
pub fn numbers_of(pieces: &Vec<Vec<char>>) -> (r: Vec<u32>)
    ensures
        r@ == parsed_numbers(views(pieces@)),
{
    let mut r: Vec<u32> = Vec::new();
    let mut i: usize = 0;
    while i < pieces.len()
        invariant
            i <= pieces.len(),
            r@ == parsed_numbers(views(pieces@).take(i as int)),
        decreases pieces.len() - i,
    {
        let ghost t = views(pieces@).take(i + 1);
        assert(t.drop_last() =~= views(pieces@).take(i as int));
        assert(t.last() == pieces@[i as int]@);
        match parse_u32_chars(&pieces[i]) {
            Some(v) => r.push(v),
            None => {},
        }
        i += 1;
    }
    assert(views(pieces@).take(pieces.len() as int) =~= views(pieces@));
    r
}

/// The (major, minor, patch) triple of a version string such as `v1.2.3`.
pub fn version_triple(v: &str) -> (r: (u32, u32, u32))
    ensures
        r == version_key(v@),
{
    let cs = chars_of(v);
    let mut k: usize = 0;
    while k < cs.len() && cs[k] == 'v'
        invariant
            k <= cs.len(),
            forall|j: int| 0 <= j < k ==> cs@[j] == 'v',
        decreases cs.len() - k,
    {
        k += 1;
    }
    proof {
        lemma_trim_leading_v(cs@, k as int);
        assert(cs@.subrange(k as int, cs@.len() as int) =~= cs@.skip(k as int));
    }
    let pieces = split_chars(&cs, k, '.');
    let nums = numbers_of(&pieces);
    let a = if nums.len() > 0 { nums[0] } else { 0 };
    let b = if nums.len() > 1 { nums[1] } else { 0 };
    let c = if nums.len() > 2 { nums[2] } else { 0 };
    (a, b, c)
}

/// Whether `latest` names a later release than `current`, comparing the
/// (major, minor, patch) numbers; a leading `v` and pieces that are not
/// numbers are ignored and missing numbers count as zero.
pub fn is_newer_version(current: &str, latest: &str) -> (r: bool)
    ensures
        r == newer(current@, latest@),
{
    let l = version_triple(latest);
    let c = version_triple(current);
    l.0 > c.0 || (l.0 == c.0 && (l.1 > c.1 || (l.1 == c.1 && l.2 > c.2)))
}


/// A version is never newer than itself.
pub proof fn lemma_newer_irreflexive(v: Seq<char>)
    ensures
        !newer(v, v),
{
}

/// If `b` is newer than `a`, then `a` is not newer than `b`.
pub proof fn lemma_newer_asymmetric(a: Seq<char>, b: Seq<char>)
    requires
        newer(a, b),
    ensures
        !newer(b, a),
{
}

/// Newer-than chains: if `b` is newer than `a` and `c` newer than `b`,
/// then `c` is newer than `a`.
pub proof fn lemma_newer_transitive(a: Seq<char>, b: Seq<char>, c: Seq<char>)
    requires
        newer(a, b),
        newer(b, c),
    ensures
        newer(a, c),
{
}

/// Two versions either name the same release numbers, or exactly one of
/// them is newer than the other.
pub proof fn lemma_newer_trichotomy(a: Seq<char>, b: Seq<char>)
    ensures
        version_key(a) == version_key(b) <==> (!newer(a, b) && !newer(b, a)),
{
}

} // verus!
