//! The version tree of a bucket as the API serves it: every log entry as a
//! node, marked as on the canonical chain and as merged, and the merges.
//! Links are identified by their text here, as the tree shows them.

use vstd::prelude::*;
use vstd::string::*;

use crate::text::push_decimal;
use crate::text::push_str;
use crate::text::dec;

verus! {

/// A point in time: nanoseconds since the Unix epoch, and the UTC offset
/// (in seconds) it is shown at.
#[derive(Debug, Clone, Copy, PartialEq, Eq, Structural)]
pub struct Timestamp {
    pub unix_nanos: i128,
    pub offset_seconds: i32,
}

/// What formatting a point in time as RFC 3339 with the `time` crate
/// gives, or `None` when the crate refuses the value.
pub uninterp spec fn rfc3339_text(unix_nanos: i128, offset_seconds: i32) -> Option<Seq<char>>;

/// Formats a point in time as RFC 3339 with the `time` crate
/// (`OffsetDateTime::from_unix_timestamp_nanos`, `checked_to_offset`,
/// `format(&Rfc3339)`); `None` when any step refuses the value. The text is
/// named, not spelled out.
#[verifier::external_body]
fn format_rfc3339(unix_nanos: i128, offset_seconds: i32) -> (r: Option<String>)
    ensures
        opt_text(r) == rfc3339_text(unix_nanos, offset_seconds),
{
    let offset = time::UtcOffset::from_whole_seconds(offset_seconds).ok()?;
    let at = time::OffsetDateTime::from_unix_timestamp_nanos(unix_nanos).ok()?;
    at.checked_to_offset(offset)?.format(&time::format_description::well_known::Rfc3339).ok()
}

/// How a creation time is shown: RFC 3339, or `unknown`.
pub open spec fn created_text(t: Timestamp) -> Seq<char> {
    match rfc3339_text(t.unix_nanos, t.offset_seconds) {
        Some(s) => s,
        None => "unknown"@,
    }
}

/// The creation time of a version as the tree shows it.
pub fn created_at_text(t: Timestamp) -> (r: String)
    ensures
        r@ == created_text(t),
{
    match format_rfc3339(t.unix_nanos, t.offset_seconds) {
        Some(s) => s,
        None => String::from_str("unknown"),
    }
}

/// A log entry as the tree is built from it.
pub struct TreeEntry {
    pub current_link: String,
    pub previous_link: Option<String>,
    pub height: u64,
    pub name: String,
    /// When this version was created.
    pub created_at: Timestamp,
}

/// A merge log entry.
pub struct MergeEntry {
    pub link_from: String,
    pub link_onto: String,
    pub result_link: String,
    pub height_from: u64,
    pub height_onto: u64,
    pub result_height: u64,
    pub ops_merged: u32,
}

/// A node in the version tree
pub struct TreeNode {
    /// The link hash as string (unique identifier)
    pub id: String,
    /// The height in the chain
    pub height: u64,
    /// Whether this node is on the canonical chain
    pub is_canonical: bool,
    /// Whether this branch was merged
    pub is_merged: bool,
    /// The parent link hash (previous in chain)
    pub parent_id: Option<String>,
    /// The name at this version
    pub name: String,
    /// When this version was created
    pub created_at: String,
}

/// Information about a merge event for visualization
pub struct TreeMerge {
    /// The orphaned branch that was merged
    pub link_from: String,
    /// The canonical head it was merged onto
    pub link_onto: String,
    /// The resulting new head
    pub result_link: String,
    /// Height of the orphaned branch
    pub height_from: u64,
    /// Height merged onto
    pub height_onto: u64,
    /// Height of the result
    pub result_height: u64,
    /// Operations merged
    pub ops_merged: u32,
}

pub struct TreeResponse {
    /// All nodes in the tree
    pub nodes: Vec<TreeNode>,
    /// All merge events
    pub merges: Vec<TreeMerge>,
    /// The current canonical head
    pub canonical_head: String,
    /// The maximum height in the tree
    pub max_height: u64,
}

/// Errors of the tree request.
pub enum TreeError {
    Database(String),
    NotFound(String),
    Internal(String),
}

pub open spec fn opt_text(o: Option<String>) -> Option<Seq<char>> {
    match o {
        Some(s) => Some(s@),
        None => None,
    }
}

/// The link before `l`: the previous link of the last entry whose link is
/// `l` (a later entry for a link takes the place of an earlier one).
pub open spec fn parent_in(entries: Seq<TreeEntry>, l: Seq<char>) -> Option<Seq<char>>
    decreases entries.len(),
{
    if entries.len() == 0 {
        None
    } else if entries.last().current_link@ == l {
        opt_text(entries.last().previous_link)
    } else {
        parent_in(entries.drop_last(), l)
    }
}

/// Where the walk back from `start` stands after `n` steps.
pub open spec fn walk_back(entries: Seq<TreeEntry>, start: Seq<char>, n: nat) -> Option<Seq<char>>
    decreases n,
{
    if n == 0 {
        Some(start)
    } else {
        match walk_back(entries, start, (n - 1) as nat) {
            Some(l) => parent_in(entries, l),
            None => None,
        }
    }
}

/// The walk back from the head comes to an end.
pub open spec fn walk_ends(entries: Seq<TreeEntry>, head: Seq<char>) -> bool {
    exists|n: nat| #[trigger] walk_back(entries, head, n) is None
}

/// `l` is the head or is reached from it by previous links.
pub open spec fn canonical(entries: Seq<TreeEntry>, head: Seq<char>, l: Seq<char>) -> bool {
    exists|k: nat| #[trigger] walk_back(entries, head, k) == Some(l)
}

proof fn lemma_walk_back_ended(entries: Seq<TreeEntry>, head: Seq<char>, n: nat, m: nat)
    requires
        walk_back(entries, head, n) is None,
        n <= m,
    ensures
        walk_back(entries, head, m) is None,
    decreases m - n,
{
    if n < m {
        lemma_walk_back_ended(entries, head, n, (m - 1) as nat);
    }
}

fn parent_of_link(entries: &Vec<TreeEntry>, l: &String) -> (r: Option<String>)
    ensures
        opt_text(r) == parent_in(entries@, l@),
{
    let mut i: usize = entries.len();
    assert(entries@.take(i as int) =~= entries@);
    while i > 0
        invariant
            i <= entries.len(),
            parent_in(entries@, l@) == parent_in(entries@.take(i as int), l@),
        decreases i,
    {
        assert(entries@.take(i as int).drop_last() =~= entries@.take(i - 1));
        if entries[i - 1].current_link == *l {
            return match &entries[i - 1].previous_link {
                Some(p) => Some(p.clone()),
                None => None,
            };
        }
        i -= 1;
    }
    None
}

fn contains_text(v: &Vec<String>, s: &String) -> (r: bool)
    ensures
        r == holds_text(v@, s@),
{
    let mut i: usize = 0;
    while i < v.len()
        invariant
            i <= v.len(),
            forall|j: int| 0 <= j < i ==> (#[trigger] v@[j])@ != s@,
        decreases v.len() - i,
    {
        if v[i] == *s {
            return true;
        }
        i += 1;
    }
    false
}

/// Some element of `v` reads `l`.
pub open spec fn holds_text(v: Seq<String>, l: Seq<char>) -> bool {
    exists|i: int| 0 <= i < v.len() && (#[trigger] v[i])@ == l
}

/// The walk back from `head` passes `l` within its first `k` steps.
pub open spec fn reached_within(entries: Seq<TreeEntry>, head: Seq<char>, k: nat, l: Seq<char>) -> bool {
    exists|j: nat| j < k && #[trigger] walk_back(entries, head, j) == Some(l)
}

/// The links of the canonical chain, from the head back.
fn chain_from(entries: &Vec<TreeEntry>, head: &String) -> (r: Vec<String>)
    requires
        walk_ends(entries@, head@),
    ensures
        forall|l: Seq<char>| #[trigger] holds_text(r@, l) <==> canonical(entries@, head@, l),
{
    let ghost end = choose|n: nat| #[trigger] walk_back(entries@, head@, n) is None;
    let mut chain: Vec<String> = Vec::new();
    let mut current: Option<String> = Some(head.clone());
    let ghost mut k: nat = 0;
    while current.is_some()
        invariant
            opt_text(current) == walk_back(entries@, head@, k),
            walk_back(entries@, head@, end) is None,
            forall|l: Seq<char>| #[trigger]
                holds_text(chain@, l) <==> reached_within(entries@, head@, k, l),
        decreases end - k,
    {
        proof {
            if k >= end {
                lemma_walk_back_ended(entries@, head@, end, k);
            }
        }
        let l = match current {
            Some(c) => c,
            None => String::new(),
        };
        let ghost old_chain = chain@;
        let next = parent_of_link(entries, &l);
        let ghost lv = l@;
        chain.push(l);
        current = next;
        proof {
            assert(chain@ == old_chain.push(chain@[old_chain.len() as int]));
            assert(chain@[old_chain.len() as int]@ == lv);
            assert(walk_back(entries@, head@, k) == Some(lv));
            assert forall|m: Seq<char>| #[trigger]
                holds_text(chain@, m) <==> reached_within(entries@, head@, k + 1, m) by {
                if holds_text(chain@, m) {
                    let t = choose|t: int| 0 <= t < chain@.len() && (#[trigger] chain@[t])@ == m;
                    if t < old_chain.len() {
                        assert(old_chain[t]@ == m);
                        assert(holds_text(old_chain, m));
                        assert(reached_within(entries@, head@, k, m));
                        let j = choose|j: nat|
                            j < k && #[trigger] walk_back(entries@, head@, j) == Some(m);
                        assert(j < k + 1 && walk_back(entries@, head@, j) == Some(m));
                    } else {
                        assert(walk_back(entries@, head@, k) == Some(m));
                    }
                }
                if reached_within(entries@, head@, k + 1, m) {
                    let j = choose|j: nat|
                        j < k + 1 && #[trigger] walk_back(entries@, head@, j) == Some(m);
                    if j < k {
                        assert(reached_within(entries@, head@, k, m));
                        assert(holds_text(old_chain, m));
                        let t = choose|t: int|
                            0 <= t < old_chain.len() && (#[trigger] old_chain[t])@ == m;
                        assert(chain@[t]@ == m);
                    } else {
                        assert(chain@[old_chain.len() as int]@ == m);
                    }
                }
            }
            k = k + 1;
        }
    }
    proof {
        assert forall|l: Seq<char>| #[trigger] holds_text(chain@, l) <==> canonical(entries@, head@, l) by {
            if canonical(entries@, head@, l) {
                let j = choose|j: nat| #[trigger] walk_back(entries@, head@, j) == Some(l);
                if j >= k {
                    lemma_walk_back_ended(entries@, head@, k, j);
                }
                assert(reached_within(entries@, head@, k, l));
            }
            if holds_text(chain@, l) {
                assert(reached_within(entries@, head@, k, l));
                let j = choose|j: nat| j < k && #[trigger] walk_back(entries@, head@, j) == Some(l);
                assert(walk_back(entries@, head@, j) == Some(l));
            }
        }
    }
    chain
}

/// The head is on the canonical chain, and the chain holds the parent of
/// every link on it.
pub proof fn lemma_canonical_chain_closed(entries: Seq<TreeEntry>, head: Seq<char>, l: Seq<char>)
    ensures
        canonical(entries, head, head),
        canonical(entries, head, l) ==> match parent_in(entries, l) {
            Some(p) => canonical(entries, head, p),
            None => true,
        },
{
    assert(walk_back(entries, head, 0) == Some(head));
    if canonical(entries, head, l) {
        let k = choose|k: nat| #[trigger] walk_back(entries, head, k) == Some(l);
        assert(walk_back(entries, head, k + 1) == parent_in(entries, l));
    }
}

proof fn lemma_parent_found(entries: Seq<TreeEntry>, l: Seq<char>)
    ensures
        parent_in(entries, l) is Some ==> exists|j: int|
            0 <= j < entries.len() && (#[trigger] entries[j]).current_link@ == l,
    decreases entries.len(),
{
    if entries.len() > 0 && entries.last().current_link@ != l {
        lemma_parent_found(entries.drop_last(), l);
        if parent_in(entries, l) is Some {
            let j = choose|j: int|
                0 <= j < entries.drop_last().len() && (#[trigger] entries.drop_last()[j]).current_link@
                    == l;
            assert(entries[j] == entries.drop_last()[j]);
        }
    } else if entries.len() > 0 {
        assert(entries[entries.len() - 1].current_link@ == l);
    }
}

proof fn lemma_walk_back_shift(entries: Seq<TreeEntry>, head: Seq<char>, i: nat, j: nat, t: nat)
    requires
        walk_back(entries, head, i) == walk_back(entries, head, j),
    ensures
        walk_back(entries, head, i + t) == walk_back(entries, head, j + t),
    decreases t,
{
    if t > 0 {
        lemma_walk_back_shift(entries, head, i, j, (t - 1) as nat);
        assert(walk_back(entries, head, i + t) == match walk_back(entries, head, (i + t - 1) as nat) {
            Some(l) => parent_in(entries, l),
            None => None,
        });
        assert(walk_back(entries, head, j + t) == match walk_back(entries, head, (j + t - 1) as nat) {
            Some(l) => parent_in(entries, l),
            None => None,
        });
    }
}

proof fn lemma_walk_back_forever(entries: Seq<TreeEntry>, head: Seq<char>, i: nat, j: nat, n: nat)
    requires
        i < j,
        walk_back(entries, head, i) == walk_back(entries, head, j),
        forall|k: nat| k <= j ==> (#[trigger] walk_back(entries, head, k)) is Some,
    ensures
        walk_back(entries, head, n) is Some,
    decreases n,
{
    if n > j {
        lemma_walk_back_shift(entries, head, i, j, (n - j) as nat);
        lemma_walk_back_forever(entries, head, i, j, (n - (j - i)) as nat);
    }
}

/// A walk back that takes more steps than there are entries goes round a
/// cycle.
proof fn lemma_long_walk_back_cycles(entries: Seq<TreeEntry>, head: Seq<char>)
    requires
        forall|k: nat| k <= entries.len() + 1 ==> (#[trigger] walk_back(entries, head, k)) is Some,
    ensures
        !walk_ends(entries, head),
{
    let n = entries.len();
    let vals = Seq::new(n + 1, |k: int| walk_back(entries, head, k as nat)->0);
    let currents = entries.map_values(|e: TreeEntry| e.current_link@);
    assert forall|k: int| 0 <= k < vals.len() implies currents.contains(#[trigger] vals[k]) by {
        assert(walk_back(entries, head, k as nat) is Some);
        assert(walk_back(entries, head, (k + 1) as nat) is Some);
        lemma_parent_found(entries, vals[k]);
        let j = choose|j: int| 0 <= j < entries.len() && (#[trigger] entries[j]).current_link@ == vals[k];
        assert(currents[j] == vals[k]);
    }
    if vals.no_duplicates() {
        vals.unique_seq_to_set();
        currents.lemma_cardinality_of_set();
        vstd::seq_lib::seq_to_set_is_finite(currents);
        assert(vals.to_set().subset_of(currents.to_set()));
        vstd::set_lib::lemma_len_subset(vals.to_set(), currents.to_set());
        assert(false);
    }
    let (i, j) = choose|i: int, j: int| 0 <= i < vals.len() && 0 <= j < vals.len() && i != j && vals[i] == vals[j];
    let (a, b) = if i < j { (i, j) } else { (j, i) };
    assert(walk_back(entries, head, a as nat) == walk_back(entries, head, b as nat));
    assert forall|m: nat| #[trigger] walk_back(entries, head, m) is Some by {
        lemma_walk_back_forever(entries, head, a as nat, b as nat, m);
    }
}

/// Whether the walk back from `head` comes to an end (it does unless the
/// log holds a cycle), so that the tree can be built.
pub fn walk_terminates(entries: &Vec<TreeEntry>, head: &String) -> (r: bool)
    ensures
        r == walk_ends(entries@, head@),
{
    let mut current: String = head.clone();
    let mut k: usize = 0;
    let n = entries.len();
    while k < n
        invariant
            n == entries@.len(),
            k <= n,
            walk_back(entries@, head@, k as nat) == Some(current@),
            forall|m: nat| m <= k ==> (#[trigger] walk_back(entries@, head@, m)) is Some,
        decreases n - k,
    {
        let next = parent_of_link(entries, &current);
        match next {
            None => {
                assert(walk_back(entries@, head@, (k + 1) as nat) is None);
                return true;
            },
            Some(p) => {
                current = p;
            },
        }
        k += 1;
        assert forall|m: nat| m <= k implies (#[trigger] walk_back(entries@, head@, m)) is Some by {
            if m < k {
            }
        }
    }
    let next = parent_of_link(entries, &current);
    if next.is_none() {
        assert(walk_back(entries@, head@, (k + 1) as nat) is None);
        return true;
    }
    proof {
        assert forall|m: nat| m <= entries@.len() + 1 implies (#[trigger] walk_back(
            entries@,
            head@,
            m,
        )) is Some by {
            if m <= k {
            } else {
                assert(m == k + 1);
            }
        }
        lemma_long_walk_back_cycles(entries@, head@);
    }
    false
}

/// Some merge log entry merged the branch at `l`.
pub open spec fn merged(merges: Seq<MergeEntry>, l: Seq<char>) -> bool {
    exists|i: int| 0 <= i < merges.len() && (#[trigger] merges[i]).link_from@ == l
}

fn merged_from(merges: &Vec<MergeEntry>, l: &String) -> (r: bool)
    ensures
        r == merged(merges@, l@),
{
    let mut i: usize = 0;
    while i < merges.len()
        invariant
            i <= merges.len(),
            forall|j: int| 0 <= j < i ==> (#[trigger] merges@[j]).link_from@ != l@,
        decreases merges.len() - i,
    {
        if merges[i].link_from == *l {
            return true;
        }
        i += 1;
    }
    false
}

/// The largest height among the entries, 0 for none.
pub open spec fn max_height(entries: Seq<TreeEntry>) -> u64
    decreases entries.len(),
{
    if entries.len() == 0 {
        0
    } else {
        let m = max_height(entries.drop_last());
        if entries.last().height > m {
            entries.last().height
        } else {
            m
        }
    }
}

pub open spec fn node_matches(
    n: TreeNode,
    e: TreeEntry,
    entries: Seq<TreeEntry>,
    head: Seq<char>,
    merges: Seq<MergeEntry>,
) -> bool {
    &&& n.id@ == e.current_link@
    &&& n.height == e.height
    &&& n.is_canonical == canonical(entries, head, e.current_link@)
    &&& n.is_merged == merged(merges, e.current_link@)
    &&& opt_text(n.parent_id) == opt_text(e.previous_link)
    &&& n.name@ == e.name@
    &&& n.created_at@ == created_text(e.created_at)
}

pub open spec fn merge_matches(t: TreeMerge, m: MergeEntry) -> bool {
    &&& t.link_from@ == m.link_from@
    &&& t.link_onto@ == m.link_onto@
    &&& t.result_link@ == m.result_link@
    &&& t.height_from == m.height_from
    &&& t.height_onto == m.height_onto
    &&& t.result_height == m.result_height
    &&& t.ops_merged == m.ops_merged
}

fn copy_opt(o: &Option<String>) -> (r: Option<String>)
    ensures
        opt_text(r) == opt_text(*o),
{
    match o {
        Some(s) => Some(s.clone()),
        None => None,
    }
}

/// The version tree of a bucket from its log entries, its canonical head
/// and its merge log: `NotFound` when the log is empty.
pub fn build_tree(entries: &Vec<TreeEntry>, head: &String, merges: &Vec<MergeEntry>) -> (r: Result<
    TreeResponse,
    TreeError,
>)
    requires
        walk_ends(entries@, head@),
    ensures
        entries@.len() == 0 <==> r is Err,
        r matches Err(e) ==> e matches TreeError::NotFound(m) && m@ == "Bucket has no log entries"@,
        r matches Ok(t) ==> {
            &&& t.canonical_head@ == head@
            &&& t.max_height == max_height(entries@)
            &&& t.nodes@.len() == entries@.len()
            &&& forall|i: int|
                0 <= i < entries@.len() ==> node_matches(
                    #[trigger] t.nodes@[i],
                    entries@[i],
                    entries@,
                    head@,
                    merges@,
                )
            &&& t.merges@.len() == merges@.len()
            &&& forall|i: int|
                0 <= i < merges@.len() ==> merge_matches(#[trigger] t.merges@[i], merges@[i])
            &&& forall|i: int|
                0 <= i < entries@.len() ==> (#[trigger] t.nodes@[i].is_merged <==> exists|j: int|
                    0 <= j < merges@.len() && (#[trigger] merges@[j]).link_from@ == entries@[i].current_link@)
        },
{
    if entries.len() == 0 {
        return Err(TreeError::NotFound(String::from_str("Bucket has no log entries")));
    }
    let chain = chain_from(entries, head);
    let mut nodes: Vec<TreeNode> = Vec::new();
    let mut top: u64 = 0;
    let mut i: usize = 0;
    while i < entries.len()
        invariant
            i <= entries@.len(),
            nodes@.len() == i,
            top == max_height(entries@.take(i as int)),
            forall|l: Seq<char>| #[trigger] holds_text(chain@, l) <==> canonical(entries@, head@, l),
            forall|k: int|
                0 <= k < i ==> node_matches(
                    #[trigger] nodes@[k],
                    entries@[k],
                    entries@,
                    head@,
                    merges@,
                ),
        decreases entries.len() - i,
    {
        let e = &entries[i];
        assert(entries@.take(i + 1).drop_last() =~= entries@.take(i as int));
        if e.height > top {
            top = e.height;
        }
        let is_canonical = contains_text(&chain, &e.current_link);
        let is_merged = merged_from(merges, &e.current_link);
        nodes.push(
            TreeNode {
                id: e.current_link.clone(),
                height: e.height,
                is_canonical,
                is_merged,
                parent_id: copy_opt(&e.previous_link),
                name: e.name.clone(),
                created_at: created_at_text(e.created_at),
            },
        );
        i += 1;
    }
    assert(entries@.take(entries.len() as int) =~= entries@);
    let mut out: Vec<TreeMerge> = Vec::new();
    let mut j: usize = 0;
    while j < merges.len()
        invariant
            j <= merges@.len(),
            out@.len() == j,
            forall|k: int| 0 <= k < j ==> merge_matches(#[trigger] out@[k], merges@[k]),
        decreases merges.len() - j,
    {
        let m = &merges[j];
        out.push(
            TreeMerge {
                link_from: m.link_from.clone(),
                link_onto: m.link_onto.clone(),
                result_link: m.result_link.clone(),
                height_from: m.height_from,
                height_onto: m.height_onto,
                result_height: m.result_height,
                ops_merged: m.ops_merged,
            },
        );
        j += 1;
    }
    Ok(TreeResponse { nodes, merges: out, canonical_head: head.clone(), max_height: top })
}

impl TreeError {
    /// The HTTP status of the error: 404 for `NotFound`, else 500.
    pub fn status(&self) -> (r: u16)
        ensures
            r == (if self is NotFound {
                404u16
            } else {
                500u16
            }),
    {
        match self {
            TreeError::NotFound(_) => 404,
            _ => 500,
        }
    }

    /// The text of the error.
    pub fn message(&self) -> (r: String)
        ensures
            r@ == match self {
                TreeError::Database(e) => "Database error: "@ + e@,
                TreeError::NotFound(e) => "Not found: "@ + e@,
                TreeError::Internal(e) => "Internal error: "@ + e@,
            },
    {
        let (prefix, e) = match self {
            TreeError::Database(e) => ("Database error: ", e),
            TreeError::NotFound(e) => ("Not found: ", e),
            TreeError::Internal(e) => ("Internal error: ", e),
        };
        let mut r = String::from_str(prefix);
        push_str(&mut r, e.as_str());
        r
    }

    /// What the error response tells the client: the error's own text,
    /// without the prefix.
    pub fn reply_message(&self) -> (r: String)
        ensures
            r@ == match self {
                TreeError::Database(e) => e@,
                TreeError::NotFound(e) => e@,
                TreeError::Internal(e) => e@,
            },
    {
        match self {
            TreeError::Database(e) => e.clone(),
            TreeError::NotFound(e) => e.clone(),
            TreeError::Internal(e) => e.clone(),
        }
    }
}

/// The reply to a reconcile request.
pub struct ReconcileResponse {
    pub success: bool,
    /// The new head, as text.
    pub new_link: String,
    pub ops_merged: u64,
    pub branches_merged: u64,
    pub message: String,
}

/// Errors of the reconcile request.
pub enum ReconcileError {
    /// The mount failed; its message.
    Mount(String),
}

impl ReconcileError {
    /// The HTTP status of the error: 400.
    pub fn status(&self) -> (r: u16)
        ensures
            r == 400,
    {
        400
    }

    /// The text of the error.
    pub fn message(&self) -> (r: String)
        ensures
            r@ == match self {
                ReconcileError::Mount(e) => "Mount error: "@ + e@,
            },
    {
        match self {
            ReconcileError::Mount(e) => {
                let mut r = String::from_str("Mount error: ");
                push_str(&mut r, e.as_str());
                r
            },
        }
    }
}

/// The successful reply to a reconcile that merged `ops_merged` operations
/// from `branches_merged` branches onto the canonical head.
pub fn reconcile_response(new_link: &str, ops_merged: u64, branches_merged: u64) -> (r:
    ReconcileResponse)
    ensures
        r.success,
        r.new_link@ == new_link@,
        r.ops_merged == ops_merged,
        r.branches_merged == branches_merged,
        r.message@ == "Reconciled "@ + dec(ops_merged as nat) + " operations from "@ + dec(
            branches_merged as nat,
        ) + " branches onto canonical head"@,
{
    let mut m = String::from_str("Reconciled ");
    push_decimal(&mut m, ops_merged);
    push_str(&mut m, " operations from ");
    push_decimal(&mut m, branches_merged);
    push_str(&mut m, " branches onto canonical head");
    ReconcileResponse {
        success: true,
        new_link: String::from_str(new_link),
        ops_merged,
        branches_merged,
        message: m,
    }
}

/// A share of the manifest: who it is shared with and in what role.
pub struct ManifestShare {
    pub public_key: String,
    pub role: String,
}

/// What the tree page shows of the bucket's manifest.
pub struct ManifestSummary {
    /// The manifest, pretty-printed.
    pub formatted: String,
    pub height: u64,
    pub version: String,
    pub entry_link: String,
    pub pins_link: String,
    pub previous_link: Option<String>,
    pub shares: Vec<ManifestShare>,
}

/// The page of a bucket's version tree.
pub struct BucketTreeTemplate {
    pub bucket_id: String,
    pub bucket_id_short: String,
    pub bucket_name: String,
    pub bucket_link: String,
    pub bucket_link_short: String,
    pub bucket_data_formatted: String,
    pub manifest_height: u64,
    pub manifest_version: String,
    pub manifest_entry_link: String,
    pub manifest_pins_link: String,
    pub manifest_previous_link: Option<String>,
    pub manifest_shares: Vec<ManifestShare>,
    pub api_url: String,
    pub read_only: bool,
    pub current_path: String,
    pub path_segments: Vec<crate::paths::PathSegment>,
}

/// An id shortened as links are: its first and last eight characters
/// around `...`.
pub open spec fn id_shortened(id: u128) -> Seq<char> {
    crate::gateway::id_text(id).take(8) + "..."@ + crate::gateway::id_text(id).skip(28)
}

fn shorten_id(id: u128) -> (r: String)
    ensures
        r@ == id_shortened(id),
{
    let t = crate::gateway::id_to_text(id);
    let cs = crate::text::chars_of(t.as_str());
    let mut r = String::new();
    crate::gateway::push_range(&mut r, &cs, 0, 8);
    push_str(&mut r, "...");
    crate::gateway::push_range(&mut r, &cs, 28, 36);
    proof {
        assert(cs@.subrange(0, 8) =~= cs@.take(8));
        assert(cs@.subrange(28, 36) =~= cs@.skip(28));
    }
    r
}

pub open spec fn tree_page_matches(
    t: BucketTreeTemplate,
    id: u128,
    name: Seq<char>,
    link: &str,
    manifest: Result<ManifestSummary, String>,
    api_url: Option<Seq<char>>,
) -> bool {
    &&& t.bucket_id@ == crate::gateway::id_text(id)
    &&& t.bucket_id_short@ == id_shortened(id)
    &&& t.bucket_name@ == name
    &&& t.bucket_link@ == link@
    &&& (link.spec_bytes().len() > 16 ==> t.bucket_link_short@ == crate::gateway::abbreviated(link, 8, 8))
    &&& (link.spec_bytes().len() <= 16 ==> t.bucket_link_short@ == link@)
    &&& match manifest {
        Ok(m) => {
            &&& t.bucket_data_formatted@ == m.formatted@
            &&& t.manifest_height == m.height
            &&& t.manifest_version@ == m.version@
            &&& t.manifest_entry_link@ == m.entry_link@
            &&& t.manifest_pins_link@ == m.pins_link@
            &&& opt_text(t.manifest_previous_link) == opt_text(m.previous_link)
            &&& t.manifest_shares@ == m.shares@
        },
        Err(e) => {
            &&& t.bucket_data_formatted@ == "Error: "@ + e@
            &&& t.manifest_height == 0
            &&& t.manifest_version@ == Seq::<char>::empty()
            &&& t.manifest_entry_link@ == Seq::<char>::empty()
            &&& t.manifest_pins_link@ == Seq::<char>::empty()
            &&& t.manifest_previous_link is None
            &&& t.manifest_shares@.len() == 0
        },
    }
    &&& t.api_url@ == match api_url {
        Some(u) => u,
        None => "http://localhost:3000"@,
    }
    &&& !t.read_only
    &&& t.current_path@ == "/"@
    &&& t.path_segments@.len() == 0
}

/// The tree page of a bucket: its id and link in full and shortened, what
/// its manifest holds (or the error that reading it gave), and the API URL
/// the page talks to (`http://localhost:3000` unless configured).
pub fn bucket_tree_template(
    bucket_id: u128,
    bucket_name: &str,
    bucket_link: &str,
    manifest: Result<ManifestSummary, String>,
    api_url: Option<&str>,
) -> (r: BucketTreeTemplate)
    requires
        bucket_link.spec_bytes().len() <= usize::MAX,
        bucket_link.spec_bytes().len() > 16 ==> crate::gateway::can_abbreviate(bucket_link, 8, 8),
    ensures
        tree_page_matches(
            r,
            bucket_id,
            bucket_name@,
            bucket_link,
            manifest,
            match api_url {
                Some(u) => Some(u@),
                None => None,
            },
        ),
{
    proof {
        reveal_strlit("");
    }
    let ghost m0 = manifest;
    let (formatted, height, version, entry, pins, previous, shares) = match manifest {
        Ok(m) => (m.formatted, m.height, m.version, m.entry_link, m.pins_link, m.previous_link, m.shares),
        Err(e) => {
            let mut f = String::from_str("Error: ");
            push_str(&mut f, e.as_str());
            (f, 0, String::new(), String::new(), String::new(), None, Vec::new())
        },
    };
    let api = match api_url {
        Some(u) => String::from_str(u),
        None => String::from_str("http://localhost:3000"),
    };
    BucketTreeTemplate {
        bucket_id: crate::gateway::id_to_text(bucket_id),
        bucket_id_short: shorten_id(bucket_id),
        bucket_name: String::from_str(bucket_name),
        bucket_link: String::from_str(bucket_link),
        bucket_link_short: crate::gateway::shorten_link(bucket_link),
        bucket_data_formatted: formatted,
        manifest_height: height,
        manifest_version: version,
        manifest_entry_link: entry,
        manifest_pins_link: pins,
        manifest_previous_link: previous,
        manifest_shares: shares,
        api_url: api,
        read_only: false,
        current_path: String::from_str("/"),
        path_segments: Vec::new(),
    }
}

/// A node of the version tree is marked merged exactly when some merge
/// log entry merged the branch at its link (its `link_from`); a link that a
/// merge only landed onto or produced is not marked merged.
pub proof fn lemma_merged_nodes_are_merge_sources(
    n: TreeNode,
    e: TreeEntry,
    entries: Seq<TreeEntry>,
    head: Seq<char>,
    merges: Seq<MergeEntry>,
)
    requires
        node_matches(n, e, entries, head, merges),
    ensures
        n.is_merged ==> exists|j: int| 0 <= j < merges.len() && (#[trigger] merges[j]).link_from@ == e.current_link@,
        (forall|j: int| 0 <= j < merges.len() ==> (#[trigger] merges[j]).link_from@ != e.current_link@)
            ==> !n.is_merged,
        forall|j: int| 0 <= j < merges.len() && (#[trigger] merges[j]).link_from@ == e.current_link@
            ==> n.is_merged,
{
}

} // verus!
