//! The bucket log: heads, the canonical chain, and orphaned branches.

use vstd::prelude::*;

verus! {

/// A link to a bucket manifest. Links are named by numbers that order them
/// the way the link type orders its values.
#[derive(Debug, Clone, Copy, PartialEq, Eq, Structural)]
pub struct Link {
    pub id: u64,
}

/// Entry in the bucket log used for orphan detection
#[derive(Debug, Clone, Copy, PartialEq, Eq, Structural)]
pub struct BucketLogEntry {
    pub current_link: Link,
    pub previous_link: Option<Link>,
    pub height: u64,
}

/// Entry representing a non-canonical (orphaned) branch in the bucket log.
/// These are manifest entries that are not ancestors of the canonical head.
#[derive(Debug, Clone, Copy, PartialEq, Eq, Structural)]
pub struct OrphanedBranch {
    /// The link to this orphaned manifest
    pub link: Link,
    /// The height at which this branch exists
    pub height: u64,
    /// The previous link this branch points to
    pub previous: Option<Link>,
}

/// Errors of a bucket log provider.
pub enum BucketLogError<T> {
    /// An error of the provider's own storage.
    Provider(T),
    /// No head at the given height: the bucket log is empty there.
    HeadNotFound(u64),
    /// An append conflicts with the current log: same link at the same height.
    Conflict,
    /// An append whose previous link is not in the log at the expected
    /// height: current, previous, height.
    InvalidAppend(Link, Link, u64),
}

/// The largest link of a non-empty sequence.
pub open spec fn max_link(heads: Seq<Link>) -> Link
    decreases heads.len(),
{
    if heads.len() <= 1 {
        heads[0]
    } else {
        let m = max_link(heads.drop_last());
        if heads.last().id > m.id {
            heads.last()
        } else {
            m
        }
    }
}

proof fn lemma_max_link(heads: Seq<Link>)
    requires
        heads.len() > 0,
    ensures
        heads.contains(max_link(heads)),
        forall|i: int| 0 <= i < heads.len() ==> (#[trigger] heads[i]).id <= max_link(heads).id,
    decreases heads.len(),
{
    if heads.len() > 1 {
        lemma_max_link(heads.drop_last());
        let m = max_link(heads.drop_last());
        let k = choose|k: int| 0 <= k < heads.drop_last().len() && heads.drop_last()[k] == m;
        assert(heads[k] == m);
        assert forall|i: int| 0 <= i < heads.len() implies (#[trigger] heads[i]).id <= max_link(heads).id by {
            if i < heads.len() - 1 {
                assert(heads.drop_last()[i] == heads[i]);
            }
        }
    } else {
        assert(heads[0] == heads[0]);
    }
}

/// The canonical head among the heads at a height: the largest link, or
/// `HeadNotFound` when there is none.
pub fn pick_head<T>(heads: &Vec<Link>, height: u64) -> (r: Result<(Link, u64), BucketLogError<T>>)
    ensures
        heads.len() == 0 ==> (r matches Err(BucketLogError::HeadNotFound(h)) && h == height),
        heads.len() > 0 ==> (r matches Ok((l, h)) && l == max_link(heads@) && h == height),
{
    if heads.len() == 0 {
        return Err(BucketLogError::HeadNotFound(height));
    }
    let mut best = heads[0];
    let mut i: usize = 1;
    assert(heads@.take(1) =~= seq![heads@[0]]);
    while i < heads.len()
        invariant
            1 <= i <= heads.len(),
            best == max_link(heads@.take(i as int)),
        decreases heads.len() - i,
    {
        assert(heads@.take(i + 1).drop_last() =~= heads@.take(i as int));
        if heads[i].id > best.id {
            best = heads[i];
        }
        i += 1;
    }
    assert(heads@.take(heads.len() as int) =~= heads@);
    Ok((best, height))
}

/// The head is one of the heads, and no head is larger.
pub proof fn lemma_head_is_largest(heads: Seq<Link>)
    requires
        heads.len() > 0,
    ensures
        heads.contains(max_link(heads)),
        forall|i: int| 0 <= i < heads.len() ==> (#[trigger] heads[i]).id <= max_link(heads).id,
{
    lemma_max_link(heads);
}

/// The link before `l`: the previous link of the first entry whose current
/// link is `l`.
pub open spec fn previous_of(entries: Seq<BucketLogEntry>, l: Link) -> Option<Link>
    decreases entries.len(),
{
    if entries.len() == 0 {
        None
    } else if entries[0].current_link == l {
        entries[0].previous_link
    } else {
        previous_of(entries.drop_first(), l)
    }
}

/// Where a walk along previous links stands after `n` steps from `start`.
pub open spec fn walk(entries: Seq<BucketLogEntry>, start: Option<Link>, n: nat) -> Option<Link>
    decreases n,
{
    if n == 0 {
        start
    } else {
        match walk(entries, start, (n - 1) as nat) {
            Some(l) => previous_of(entries, l),
            None => None,
        }
    }
}

/// The walk back from `head` reaches a link with nothing before it.
pub open spec fn chain_ends(entries: Seq<BucketLogEntry>, head: Link) -> bool {
    exists|n: nat| #[trigger] walk(entries, Some(head), n) is None
}

/// The canonical chain: the head and every link reached from it by
/// previous links.
pub open spec fn on_chain(entries: Seq<BucketLogEntry>, head: Link, l: Link) -> bool {
    exists|k: nat| #[trigger] walk(entries, Some(head), k) == Some(l)
}

/// The orphaned branches: the entries, in order, whose link is neither on
/// the canonical chain nor already merged.
pub open spec fn orphans(entries: Seq<BucketLogEntry>, head: Link, merged: Set<Link>) -> Seq<
    OrphanedBranch,
>
    decreases entries.len(),
{
    orphans_of(entries, entries, head, merged)
}

pub open spec fn orphans_of(
    all: Seq<BucketLogEntry>,
    rest: Seq<BucketLogEntry>,
    head: Link,
    merged: Set<Link>,
) -> Seq<OrphanedBranch>
    decreases rest.len(),
{
    if rest.len() == 0 {
        Seq::empty()
    } else {
        let prev = orphans_of(all, rest.drop_last(), head, merged);
        let e = rest.last();
        if !on_chain(all, head, e.current_link) && !merged.contains(e.current_link) {
            prev.push(OrphanedBranch { link: e.current_link, height: e.height, previous: e.previous_link })
        } else {
            prev
        }
    }
}

proof fn lemma_walk_stays_ended(entries: Seq<BucketLogEntry>, start: Option<Link>, n: nat, m: nat)
    requires
        walk(entries, start, n) is None,
        n <= m,
    ensures
        walk(entries, start, m) is None,
    decreases m - n,
{
    if n < m {
        lemma_walk_stays_ended(entries, start, n, (m - 1) as nat);
    }
}

fn previous_link_of(entries: &Vec<BucketLogEntry>, l: Link) -> (r: Option<Link>)
    ensures
        r == previous_of(entries@, l),
{
    let mut i: usize = 0;
    assert(entries@.skip(0) =~= entries@);
    while i < entries.len()
        invariant
            i <= entries.len(),
            previous_of(entries@, l) == previous_of(entries@.skip(i as int), l),
        decreases entries.len() - i,
    {
        assert(entries@.skip(i as int).drop_first() =~= entries@.skip(i + 1));
        if entries[i].current_link.id == l.id {
            return entries[i].previous_link;
        }
        i += 1;
    }
    None
}

fn contains_link(v: &Vec<Link>, l: Link) -> (r: bool)
    ensures
        r == v@.contains(l),
{
    let mut i: usize = 0;
    while i < v.len()
        invariant
            i <= v.len(),
            forall|j: int| 0 <= j < i ==> v@[j] != l,
        decreases v.len() - i,
    {
        if v[i].id == l.id {
            return true;
        }
        i += 1;
    }
    false
}

/// The links of the canonical chain, from the head back.
pub fn canonical_chain(entries: &Vec<BucketLogEntry>, head: Link) -> (r: Vec<Link>)
    requires
        chain_ends(entries@, head),
    ensures
        forall|l: Link| r@.contains(l) <==> on_chain(entries@, head, l),
{
    let ghost end = choose|n: nat| #[trigger] walk(entries@, Some(head), n) is None;
    let mut chain: Vec<Link> = Vec::new();
    let mut current: Option<Link> = Some(head);
    let ghost mut k: nat = 0;
    while current.is_some()
        invariant
            current == walk(entries@, Some(head), k),
            walk(entries@, Some(head), end) is None,
            forall|l: Link|
                chain@.contains(l) <==> exists|j: nat| j < k && #[trigger] walk(entries@, Some(head), j)
                    == Some(l),
        decreases end - k,
    {
        proof {
            if k >= end {
                lemma_walk_stays_ended(entries@, Some(head), end, k);
            }
        }
        let l = current.unwrap();
        let ghost old_chain = chain@;
        chain.push(l);
        current = previous_link_of(entries, l);
        proof {
            assert(chain@ == old_chain.push(l));
            assert forall|m: Link|
                chain@.contains(m) <==> exists|j: nat| j < k + 1 && #[trigger] walk(entries@, Some(head), j)
                    == Some(m) by {
                if chain@.contains(m) {
                    let t = choose|t: int| 0 <= t < chain@.len() && chain@[t] == m;
                    if t < old_chain.len() {
                        assert(old_chain[t] == m);
                        assert(old_chain.contains(m));
                        let j = choose|j: nat| j < k && #[trigger] walk(entries@, Some(head), j) == Some(m);
                        assert(j < k + 1 && walk(entries@, Some(head), j) == Some(m));
                    } else {
                        assert(walk(entries@, Some(head), k) == Some(m));
                    }
                }
                if exists|j: nat| j < k + 1 && #[trigger] walk(entries@, Some(head), j) == Some(m) {
                    let j = choose|j: nat| j < k + 1 && #[trigger] walk(entries@, Some(head), j) == Some(m);
                    if j < k {
                        assert(old_chain.contains(m));
                        let t = choose|t: int| 0 <= t < old_chain.len() && old_chain[t] == m;
                        assert(chain@[t] == m);
                    } else {
                        assert(chain@[chain@.len() - 1] == m);
                    }
                }
            }
            k = k + 1;
        }
    }
    proof {
        assert forall|l: Link| on_chain(entries@, head, l) implies chain@.contains(l) by {
            let j = choose|j: nat| #[trigger] walk(entries@, Some(head), j) == Some(l);
            if j >= k {
                lemma_walk_stays_ended(entries@, Some(head), k, j);
            }
        }
    }
    chain
}

/// Find all branches that are not ancestors of the canonical head,
/// excluding branches that have already been merged.
pub fn find_orphaned_branches_excluding(
    entries: &Vec<BucketLogEntry>,
    head: Link,
    already_merged: &Vec<Link>,
) -> (r: Vec<OrphanedBranch>)
    requires
        chain_ends(entries@, head),
    ensures
        r@ == orphans(entries@, head, already_merged@.to_set()),
{
    let chain = canonical_chain(entries, head);
    let mut r: Vec<OrphanedBranch> = Vec::new();
    let mut i: usize = 0;
    while i < entries.len()
        invariant
            i <= entries.len(),
            forall|l: Link| chain@.contains(l) <==> on_chain(entries@, head, l),
            r@ == orphans_of(entries@, entries@.take(i as int), head, already_merged@.to_set()),
        decreases entries.len() - i,
    {
        let e = entries[i];
        assert(entries@.take(i + 1).drop_last() =~= entries@.take(i as int));
        assert(entries@.take(i + 1).last() == e);
        let merged = contains_link(already_merged, e.current_link);
        assert(merged == already_merged@.to_set().contains(e.current_link));
        if !contains_link(&chain, e.current_link) && !merged {
            r.push(OrphanedBranch { link: e.current_link, height: e.height, previous: e.previous_link });
        }
        i += 1;
    }
    assert(entries@.take(entries.len() as int) =~= entries@);
    r
}

/// Find all branches that are not ancestors of the canonical head.
pub fn find_orphaned_branches(entries: &Vec<BucketLogEntry>, head: Link) -> (r: Vec<OrphanedBranch>)
    requires
        chain_ends(entries@, head),
    ensures
        r@ == orphans(entries@, head, Set::empty()),
{
    let none: Vec<Link> = Vec::new();
    assert(none@.to_set() =~= Set::<Link>::empty());
    find_orphaned_branches_excluding(entries, head, &none)
}

proof fn lemma_orphans_of_sound(
    all: Seq<BucketLogEntry>,
    rest: Seq<BucketLogEntry>,
    head: Link,
    merged: Set<Link>,
)
    ensures
        forall|i: int|
            0 <= i < orphans_of(all, rest, head, merged).len() ==> {
                let o = #[trigger] orphans_of(all, rest, head, merged)[i];
                &&& !on_chain(all, head, o.link)
                &&& !merged.contains(o.link)
                &&& exists|j: int|
                    0 <= j < rest.len() && rest[j].current_link == o.link && rest[j].height
                        == o.height && rest[j].previous_link == o.previous
            },
    decreases rest.len(),
{
    if rest.len() > 0 {
        lemma_orphans_of_sound(all, rest.drop_last(), head, merged);
        let prev = orphans_of(all, rest.drop_last(), head, merged);
        assert forall|i: int| 0 <= i < orphans_of(all, rest, head, merged).len() implies {
            let o = #[trigger] orphans_of(all, rest, head, merged)[i];
            &&& !on_chain(all, head, o.link)
            &&& !merged.contains(o.link)
            &&& exists|j: int|
                0 <= j < rest.len() && rest[j].current_link == o.link && rest[j].height == o.height
                    && rest[j].previous_link == o.previous
        } by {
            let o = orphans_of(all, rest, head, merged)[i];
            if i < prev.len() {
                assert(o == prev[i]);
                let j = choose|j: int|
                    0 <= j < rest.drop_last().len() && rest.drop_last()[j].current_link == o.link
                        && rest.drop_last()[j].height == o.height && rest.drop_last()[j].previous_link
                        == o.previous;
                assert(rest[j] == rest.drop_last()[j]);
            } else {
                assert(rest[rest.len() - 1] == rest.last());
            }
        }
    }
}

proof fn lemma_orphans_of_complete(
    all: Seq<BucketLogEntry>,
    rest: Seq<BucketLogEntry>,
    head: Link,
    merged: Set<Link>,
)
    ensures
        forall|j: int|
            0 <= j < rest.len() && !on_chain(all, head, (#[trigger] rest[j]).current_link)
                && !merged.contains(rest[j].current_link) ==> exists|i: int|
                0 <= i < orphans_of(all, rest, head, merged).len() && orphans_of(
                    all,
                    rest,
                    head,
                    merged,
                )[i].link == rest[j].current_link,
    decreases rest.len(),
{
    if rest.len() > 0 {
        lemma_orphans_of_complete(all, rest.drop_last(), head, merged);
        let prev = orphans_of(all, rest.drop_last(), head, merged);
        let cur = orphans_of(all, rest, head, merged);
        assert forall|j: int|
            0 <= j < rest.len() && !on_chain(all, head, (#[trigger] rest[j]).current_link)
                && !merged.contains(rest[j].current_link) implies exists|i: int|
            0 <= i < cur.len() && cur[i].link == rest[j].current_link by {
            if j < rest.len() - 1 {
                assert(rest.drop_last()[j] == rest[j]);
                let i = choose|i: int| 0 <= i < prev.len() && prev[i].link == rest.drop_last()[j].current_link;
                assert(cur[i] == prev[i]);
            } else {
                assert(cur[cur.len() - 1].link == rest.last().current_link);
            }
        }
    }
}

/// The orphaned branches are exactly the log entries that are neither on
/// the canonical chain nor already merged: each one reported is such an
/// entry, with its height and previous link, and each such entry is
/// reported. In particular the head and the merged links never are.
pub proof fn lemma_orphans_exact(entries: Seq<BucketLogEntry>, head: Link, merged: Set<Link>)
    ensures
        forall|i: int|
            0 <= i < orphans(entries, head, merged).len() ==> {
                let o = #[trigger] orphans(entries, head, merged)[i];
                &&& !on_chain(entries, head, o.link)
                &&& o.link != head
                &&& !merged.contains(o.link)
                &&& exists|j: int|
                    0 <= j < entries.len() && entries[j].current_link == o.link && entries[j].height
                        == o.height && entries[j].previous_link == o.previous
            },
        forall|j: int|
            0 <= j < entries.len() && !on_chain(entries, head, (#[trigger] entries[j]).current_link)
                && !merged.contains(entries[j].current_link) ==> exists|i: int|
                0 <= i < orphans(entries, head, merged).len() && orphans(entries, head, merged)[i].link
                    == entries[j].current_link,
{
    lemma_orphans_of_sound(entries, entries, head, merged);
    lemma_orphans_of_complete(entries, entries, head, merged);
    assert(walk(entries, Some(head), 0) == Some(head));
    assert(on_chain(entries, head, head));
}

proof fn lemma_previous_found(entries: Seq<BucketLogEntry>, l: Link)
    ensures
        previous_of(entries, l) is Some ==> exists|j: int|
            0 <= j < entries.len() && (#[trigger] entries[j]).current_link == l,
    decreases entries.len(),
{
    if entries.len() > 0 && entries[0].current_link != l {
        lemma_previous_found(entries.drop_first(), l);
        if previous_of(entries, l) is Some {
            let j = choose|j: int|
                0 <= j < entries.drop_first().len() && (#[trigger] entries.drop_first()[j]).current_link
                    == l;
            assert(entries[j + 1] == entries.drop_first()[j]);
        }
    }
}

proof fn lemma_walk_shift(entries: Seq<BucketLogEntry>, start: Option<Link>, i: nat, j: nat, t: nat)
    requires
        walk(entries, start, i) == walk(entries, start, j),
    ensures
        walk(entries, start, i + t) == walk(entries, start, j + t),
    decreases t,
{
    if t > 0 {
        lemma_walk_shift(entries, start, i, j, (t - 1) as nat);
        assert(walk(entries, start, i + t) == match walk(entries, start, (i + t - 1) as nat) {
            Some(l) => previous_of(entries, l),
            None => None,
        });
        assert(walk(entries, start, j + t) == match walk(entries, start, (j + t - 1) as nat) {
            Some(l) => previous_of(entries, l),
            None => None,
        });
    }
}

proof fn lemma_walk_forever(entries: Seq<BucketLogEntry>, start: Option<Link>, i: nat, j: nat, n: nat)
    requires
        i < j,
        walk(entries, start, i) == walk(entries, start, j),
        forall|k: nat| k <= j ==> (#[trigger] walk(entries, start, k)) is Some,
    ensures
        walk(entries, start, n) is Some,
    decreases n,
{
    if n > j {
        lemma_walk_shift(entries, start, i, j, (n - j) as nat);
        lemma_walk_forever(entries, start, i, j, (n - (j - i)) as nat);
    }
}

/// A walk that takes more steps than there are entries goes round a cycle.
proof fn lemma_long_walk_cycles(entries: Seq<BucketLogEntry>, head: Link)
    requires
        forall|k: nat| k <= entries.len() + 1 ==> (#[trigger] walk(entries, Some(head), k)) is Some,
    ensures
        !chain_ends(entries, head),
{
    let n = entries.len();
    let vals = Seq::new(n + 1, |k: int| walk(entries, Some(head), k as nat)->0);
    let currents = entries.map_values(|e: BucketLogEntry| e.current_link);
    assert forall|k: int| 0 <= k < vals.len() implies currents.contains(#[trigger] vals[k]) by {
        assert(walk(entries, Some(head), k as nat) is Some);
        assert(walk(entries, Some(head), (k + 1) as nat) is Some);
        lemma_previous_found(entries, vals[k]);
        let j = choose|j: int| 0 <= j < entries.len() && (#[trigger] entries[j]).current_link == vals[k];
        assert(currents[j] == vals[k]);
    }
    if vals.no_duplicates() {
        vals.unique_seq_to_set();
        currents.lemma_cardinality_of_set();
        vstd::seq_lib::seq_to_set_is_finite(currents);
        assert(vals.to_set().subset_of(currents.to_set()));
        vstd::set_lib::lemma_len_subset(vals.to_set(), currents.to_set());
        assert(false);
    }
    let (i, j) = choose|i: int, j: int| 0 <= i < vals.len() && 0 <= j < vals.len() && i != j && vals[i] == vals[j];
    let (a, b) = if i < j { (i, j) } else { (j, i) };
    assert(walk(entries, Some(head), a as nat) == walk(entries, Some(head), b as nat));
    assert forall|m: nat| #[trigger] walk(entries, Some(head), m) is Some by {
        lemma_walk_forever(entries, Some(head), a as nat, b as nat, m);
    }
}

/// Whether the walk back from `head` along previous links comes to an end
/// (it does unless the log holds a cycle), so that the canonical chain and
/// the orphaned branches can be computed.
pub fn chain_terminates(entries: &Vec<BucketLogEntry>, head: Link) -> (r: bool)
    ensures
        r == chain_ends(entries@, head),
{
    let mut current: Option<Link> = Some(head);
    let mut k: usize = 0;
    let n = entries.len();
    while k < n
        invariant
            n == entries@.len(),
            k <= n,
            current == walk(entries@, Some(head), k as nat),
            forall|m: nat| m <= k ==> (#[trigger] walk(entries@, Some(head), m)) is Some,
        decreases n - k,
    {
        let l = match current {
            Some(l) => l,
            None => Link { id: 0 },
        };
        let next = previous_link_of(entries, l);
        if next.is_none() {
            assert(walk(entries@, Some(head), (k + 1) as nat) is None);
            return true;
        }
        current = next;
        k += 1;
        assert forall|m: nat| m <= k implies (#[trigger] walk(entries@, Some(head), m)) is Some by {
            if m < k {
            }
        }
    }
    let l = match current {
        Some(l) => l,
        None => Link { id: 0 },
    };
    let next = previous_link_of(entries, l);
    if next.is_none() {
        assert(walk(entries@, Some(head), (k + 1) as nat) is None);
        return true;
    }
    proof {
        assert forall|m: nat| m <= entries@.len() + 1 implies (#[trigger] walk(
            entries@,
            Some(head),
            m,
        )) is Some by {
            if m <= k {
            } else {
                assert(m == k + 1);
            }
        }
        lemma_long_walk_cycles(entries@, head);
    }
    false
}

} // verus!
