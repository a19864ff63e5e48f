//! Decisions of the peer sync protocol: what a ping is answered, who then
//! fetches from whom, and how a downloaded manifest chain is put in the log.

use vstd::prelude::*;

use crate::bucket_log::Link;

verus! {

/// Sync status between two peers for a bucket
#[derive(Debug, Clone, Copy, PartialEq, Eq, Structural)]
pub enum PPong {
    /// The peer does not have this bucket at all
    NotFound,
    /// We are ahead of the current peer's history, report where we are
    Ahead(Link, u64),
    /// We are behind, report where we are
    Behind(Link, u64),
    /// Both agree on the current link (in sync)
    InSync,
    /// Same height, but our head is another link than the peer's: the two
    /// histories have forked; report where we are
    Forked(Link, u64),
}

/// Request to ping a peer and check bucket sync status
#[derive(Debug, Clone, Copy, PartialEq, Eq, Structural)]
pub struct Ping {
    /// The bucket ID to check
    pub bucket_id: u128,
    /// The current link the requesting peer has for this bucket
    pub link: Link,
    /// The height of the link we are responding to
    pub height: u64,
    /// The peer making the request
    pub requester_id: u64,
}

/// Response to a ping request
#[derive(Debug, Clone, Copy, PartialEq, Eq, Structural)]
pub struct Pong {
    /// The bucket ID being responded to
    pub bucket_id: u128,
    /// The sync status
    pub status: PPong,
    /// The peer responding
    pub responder_id: u64,
}

impl Pong {
    /// A pong saying that the bucket is unknown here.
    pub fn not_found(bucket_id: u128, responder_id: u64) -> (p: Pong)
        ensures
            p == (Pong { bucket_id, status: PPong::NotFound, responder_id }),
    {
        Pong { bucket_id, status: PPong::NotFound, responder_id }
    }

    /// A pong saying that this side is ahead.
    pub fn ahead(bucket_id: u128, link: Link, height: u64, responder_id: u64) -> (p: Pong)
        ensures
            p == (Pong { bucket_id, status: PPong::Ahead(link, height), responder_id }),
    {
        Pong { bucket_id, status: PPong::Ahead(link, height), responder_id }
    }

    /// A pong saying that this side is behind.
    pub fn behind(bucket_id: u128, link: Link, height: u64, responder_id: u64) -> (p: Pong)
        ensures
            p == (Pong { bucket_id, status: PPong::Behind(link, height), responder_id }),
    {
        Pong { bucket_id, status: PPong::Behind(link, height), responder_id }
    }

    /// A pong saying that both sides are at the same height on different
    /// heads.
    pub fn forked(bucket_id: u128, link: Link, height: u64, responder_id: u64) -> (p: Pong)
        ensures
            p == (Pong { bucket_id, status: PPong::Forked(link, height), responder_id }),
    {
        Pong { bucket_id, status: PPong::Forked(link, height), responder_id }
    }

    /// A pong saying that both sides are in sync.
    pub fn in_sync(bucket_id: u128, responder_id: u64) -> (p: Pong)
        ensures
            p == (Pong { bucket_id, status: PPong::InSync, responder_id }),
    {
        Pong { bucket_id, status: PPong::InSync, responder_id }
    }
}

/// The status a peer reports for a bucket: `NotFound` without it; otherwise
/// its own head and height as behind or ahead by comparing heights, and at
/// the same height in sync when both have the same head, forked when not.
pub open spec fn ping_status(ours: Option<(Link, u64)>, their_link: Link, their_height: u64) -> PPong {
    match ours {
        None => PPong::NotFound,
        Some((head, h)) => if h < their_height {
            PPong::Behind(head, h)
        } else if h > their_height {
            PPong::Ahead(head, h)
        } else if head == their_link {
            PPong::InSync
        } else {
            PPong::Forked(head, h)
        },
    }
}

/// A background sync job: fetch a bucket up to a link from a peer.
#[derive(Debug, Clone, Copy, PartialEq, Eq, Structural)]
pub struct SyncJob {
    pub bucket_id: u128,
    pub target_link: Link,
    pub target_height: u64,
    pub peer_id: u64,
}

/// Background jobs that can be dispatched to the peer worker
#[derive(Debug, Clone, Copy, PartialEq, Eq, Structural)]
pub enum Job {
    /// Sync a bucket from a remote peer
    SyncBucket(SyncJob),
}

pub open spec fn responder_job(ping: Ping, status: PPong) -> Option<SyncJob> {
    match status {
        PPong::Behind(_, _) => Some(
            SyncJob {
                bucket_id: ping.bucket_id,
                target_link: ping.link,
                target_height: ping.height,
                peer_id: ping.requester_id,
            },
        ),
        _ => None,
    }
}

pub open spec fn initiator_job(pong: Pong) -> Option<SyncJob> {
    match pong.status {
        PPong::Ahead(link, height) => Some(
            SyncJob {
                bucket_id: pong.bucket_id,
                target_link: link,
                target_height: height,
                peer_id: pong.responder_id,
            },
        ),
        _ => None,
    }
}

/// The ping protocol, both sides of it: the responder answers a ping and
/// may then schedule a sync; the initiator acts on the pong.
pub struct PingHandler;

impl PingHandler {
    /// Responder side: the answer to a ping, given our head and height for the
    /// bucket (`None` when we do not have it).
    pub fn handle_request(ping: &Ping, ours: Option<(Link, u64)>, responder_id: u64) -> (p: Pong)
        ensures
            p == (Pong {
                bucket_id: ping.bucket_id,
                status: ping_status(ours, ping.link, ping.height),
                responder_id,
            }),
    {
        match ours {
            None => Pong::not_found(ping.bucket_id, responder_id),
            Some((head, h)) => {
                if h < ping.height {
                    Pong::behind(ping.bucket_id, head, h, responder_id)
                } else if h > ping.height {
                    Pong::ahead(ping.bucket_id, head, h, responder_id)
                } else if head.id == ping.link.id {
                    Pong::in_sync(ping.bucket_id, responder_id)
                } else {
                    Pong::forked(ping.bucket_id, head, h, responder_id)
                }
            },
        }
    }

    /// Responder side, after the pong went out: when we told the peer that we
    /// are behind, we sync from it up to the link it pinged with.
    pub fn after_response_sent(ping: &Ping, pong: &Pong) -> (r: Option<SyncJob>)
        ensures
            r == responder_job(*ping, pong.status),
    {
        match pong.status {
            PPong::Behind(_, _) => Some(
                SyncJob {
                    bucket_id: ping.bucket_id,
                    target_link: ping.link,
                    target_height: ping.height,
                    peer_id: ping.requester_id,
                },
            ),
            _ => None,
        }
    }

    /// Initiator side: when the peer is ahead, we sync from it up to its head.
    pub fn handle_response(pong: &Pong) -> (r: Option<SyncJob>)
        ensures
            r == initiator_job(*pong),
    {
        match pong.status {
            PPong::Ahead(link, height) => Some(
                SyncJob {
                    bucket_id: pong.bucket_id,
                    target_link: link,
                    target_height: height,
                    peer_id: pong.responder_id,
                },
            ),
            _ => None,
        }
    }
}

/// One ping exchange about a bucket that both peers hold: when their
/// heights differ, exactly one of them schedules a sync, the one that is
/// behind, from the other peer and up to the other's head; when the
/// heights agree, neither does, and the answer is in sync exactly when both
/// heads are the same link.
pub proof fn lemma_ping_exchange_converges(
    bucket_id: u128,
    a_id: u64,
    a_head: Link,
    a_height: u64,
    b_id: u64,
    b_head: Link,
    b_height: u64,
)
    ensures
        ({
            let ping = Ping { bucket_id, link: a_head, height: a_height, requester_id: a_id };
            let status = ping_status(Some((b_head, b_height)), a_head, a_height);
            let pong = Pong { bucket_id, status, responder_id: b_id };
            let b_job = responder_job(ping, status);
            let a_job = initiator_job(pong);
            &&& a_height == b_height ==> b_job is None && a_job is None
            &&& a_height == b_height ==> (status == PPong::InSync <==> a_head == b_head)
            &&& b_height < a_height ==> a_job is None && b_job == Some(
                SyncJob { bucket_id, target_link: a_head, target_height: a_height, peer_id: a_id },
            )
            &&& a_height < b_height ==> b_job is None && a_job == Some(
                SyncJob { bucket_id, target_link: b_head, target_height: b_height, peer_id: b_id },
            )
        }),
{
}

/// A peer that does not hold the bucket answers `NotFound`, and neither
/// side schedules anything.
pub proof fn lemma_unknown_bucket_is_quiet(ping: Ping, responder_id: u64)
    ensures
        ping_status(None, ping.link, ping.height) == PPong::NotFound,
        responder_job(ping, PPong::NotFound) is None,
        initiator_job(
            Pong { bucket_id: ping.bucket_id, status: PPong::NotFound, responder_id },
        ) is None,
{
}

/// How a sync from a peer proceeds, given whether we know the bucket.
#[derive(Debug, Clone, Copy, PartialEq, Eq, Structural)]
pub enum SyncMode {
    /// We have the bucket: download the missing manifests and append them.
    UpdateExisting,
    /// We do not have the bucket: clone it from the peer.
    Clone,
    /// Reading our log failed otherwise: the sync fails.
    Fail,
}

/// What reading our height for the bucket gave.
#[derive(Debug, Clone, Copy, PartialEq, Eq, Structural)]
pub enum HeightLookup {
    Found(u64),
    HeadNotFound,
    Failed,
}

pub fn sync_mode(lookup: HeightLookup) -> (m: SyncMode)
    ensures
        m == match lookup {
            HeightLookup::Found(_) => SyncMode::UpdateExisting,
            HeightLookup::HeadNotFound => SyncMode::Clone,
            HeightLookup::Failed => SyncMode::Fail,
        },
{
    match lookup {
        HeightLookup::Found(_) => SyncMode::UpdateExisting,
        HeightLookup::HeadNotFound => SyncMode::Clone,
        HeightLookup::Failed => SyncMode::Fail,
    }
}

/// Where the download of a manifest chain goes after the manifest at
/// `current`: it stops at `stop_at` and at the genesis manifest (no
/// previous link), and otherwise moves to the previous link.
pub fn next_in_chain(current: Link, stop_at: Option<Link>, previous: Option<Link>) -> (r: Option<
    Link,
>)
    ensures
        r == (if stop_at == Some(current) {
            None
        } else {
            previous
        }),
{
    match stop_at {
        Some(s) => {
            if s.id == current.id {
                return None;
            }
        },
        None => {},
    }
    previous
}

/// The downloaded chain put in order: the links came newest first; they
/// leave oldest first, each with its height in the chain, counted from the
/// oldest at 0, so that heights grow from the oldest to the newest.
pub open spec fn ordered_chain(downloaded: Seq<Link>) -> Seq<(Link, u64)> {
    Seq::new(downloaded.len(), |i: int| (downloaded[downloaded.len() - 1 - i], i as u64))
}

pub fn order_downloaded_chain(downloaded: &Vec<Link>) -> (r: Vec<(Link, u64)>)
    ensures
        r@ == ordered_chain(downloaded@),
{
    let n = downloaded.len();
    let mut r: Vec<(Link, u64)> = Vec::new();
    let mut i: usize = 0;
    while i < n
        invariant
            i <= n,
            n == downloaded.len(),
            r@ == ordered_chain(downloaded@).take(i as int),
        decreases n - i,
    {
        r.push((downloaded[n - 1 - i], i as u64));
        i += 1;
        assert(r@ =~= ordered_chain(downloaded@).take(i as int));
    }
    assert(ordered_chain(downloaded@).take(n as int) =~= ordered_chain(downloaded@));
    r
}

/// The first link (oldest first) that our log already holds.
pub fn find_common_ancestor(links: &Vec<Link>, in_our_log: &Vec<bool>) -> (r: Option<Link>)
    requires
        links.len() == in_our_log.len(),
    ensures
        match r {
            Some(l) => exists|i: int|
                0 <= i < links.len() && #[trigger] in_our_log@[i] && links@[i] == l && forall|j: int|
                    0 <= j < i ==> !#[trigger] in_our_log@[j],
            None => forall|j: int| 0 <= j < links.len() ==> !#[trigger] in_our_log@[j],
        },
{
    let mut i: usize = 0;
    while i < links.len()
        invariant
            i <= links.len(),
            links.len() == in_our_log.len(),
            forall|j: int| 0 <= j < i ==> !#[trigger] in_our_log@[j],
        decreases links.len() - i,
    {
        if in_our_log[i] {
            return Some(links[i]);
        }
        i += 1;
    }
    None
}

/// How updating a bucket we hold ends.
#[derive(Debug, Clone, Copy, PartialEq, Eq, Structural)]
pub enum UpdateDecision {
    /// Nothing was downloaded: already up to date.
    UpToDate,
    /// The chain starts at our head: append it.
    Apply,
    /// The chain meets our log elsewhere than at our head.
    Fork(Link),
    /// The chain does not meet our log at all.
    NoCommonAncestor,
}

pub fn decide_update(downloaded: usize, ancestor: Option<Link>, our_head: Link) -> (d: UpdateDecision)
    ensures
        d == (if downloaded == 0 {
            UpdateDecision::UpToDate
        } else {
            match ancestor {
                None => UpdateDecision::NoCommonAncestor,
                Some(a) => if a == our_head {
                    UpdateDecision::Apply
                } else {
                    UpdateDecision::Fork(a)
                },
            }
        }),
{
    if downloaded == 0 {
        return UpdateDecision::UpToDate;
    }
    match ancestor {
        None => UpdateDecision::NoCommonAncestor,
        Some(a) => if a.id == our_head.id {
            UpdateDecision::Apply
        } else {
            UpdateDecision::Fork(a)
        },
    }
}

/// The heights at which a chain of `n` manifests is appended after
/// `start_height`: one after another, starting just above it.
pub fn append_heights(start_height: u64, n: usize) -> (r: Vec<u64>)
    requires
        start_height + n <= u64::MAX,
    ensures
        r@.len() == n,
        forall|i: int| 0 <= i < n ==> #[trigger] r@[i] == start_height + i + 1,
{
    let mut r: Vec<u64> = Vec::new();
    let mut i: usize = 0;
    while i < n
        invariant
            i <= n,
            start_height + n <= u64::MAX,
            r@.len() == i,
            forall|k: int| 0 <= k < i ==> #[trigger] r@[k] == start_height + k + 1,
        decreases n - i,
    {
        r.push(start_height + i as u64 + 1);
        i += 1;
    }
    r
}

/// Whether our key is among a manifest's share keys.
pub fn verify_provenance(share_keys: &Vec<String>, our_key: &String) -> (r: bool)
    ensures
        r == crate::mounts::string_views(share_keys@).contains(our_key@),
{
    crate::mounts::contains_string(share_keys, our_key)
}

/// The manifests an update appends to our log, oldest first: those of the
/// downloaded chain (oldest first) that come after our head, at the heights
/// after ours. The download stops at our head, so when the chain reaches it
/// our head is its oldest link and is not appended again.
pub open spec fn sync_appends(chain: Seq<Link>, our_head: Link, our_height: u64) -> Seq<(Link, int)> {
    let missing = if chain.len() > 0 && chain[0] == our_head {
        chain.skip(1)
    } else {
        chain
    };
    Seq::new(missing.len(), |k: int| (missing[k], our_height + 1 + k))
}

/// What to append after an update decided to apply a downloaded chain.
pub fn manifests_to_append(chain: &Vec<Link>, our_head: Link, our_height: u64) -> (r: Vec<(Link, u64)>)
    requires
        our_height + chain@.len() <= u64::MAX,
    ensures
        r@.len() == sync_appends(chain@, our_head, our_height).len(),
        forall|k: int|
            0 <= k < r@.len() ==> (#[trigger] r@[k]).0 == sync_appends(chain@, our_head, our_height)[k].0
                && r@[k].1 as int == sync_appends(chain@, our_head, our_height)[k].1,
{
    let start: usize = if chain.len() > 0 && chain[0].id == our_head.id {
        1
    } else {
        0
    };
    let ghost missing = if chain@.len() > 0 && chain@[0] == our_head {
        chain@.skip(1)
    } else {
        chain@
    };
    assert(missing =~= chain@.skip(start as int));
    let mut r: Vec<(Link, u64)> = Vec::new();
    let mut i: usize = start;
    while i < chain.len()
        invariant
            start <= i <= chain@.len(),
            our_height + chain@.len() <= u64::MAX,
            missing =~= chain@.skip(start as int),
            r@.len() == i - start,
            forall|k: int|
                0 <= k < r@.len() ==> (#[trigger] r@[k]).0 == missing[k] && r@[k].1 as int
                    == our_height + 1 + k,
        decreases chain.len() - i,
    {
        r.push((chain[i], our_height + 1 + (i - start) as u64));
        i += 1;
    }
    r
}

/// An update that applies a chain downloaded down to our head appends
/// exactly the manifests after our head, in order, at consecutive heights
/// right after ours.
pub proof fn lemma_update_appends_missing(chain: Seq<Link>, our_head: Link, our_height: u64)
    requires
        chain.len() > 0,
        chain[0] == our_head,
    ensures
        sync_appends(chain, our_head, our_height).len() == chain.len() - 1,
        forall|k: int|
            0 <= k < chain.len() - 1 ==> #[trigger] sync_appends(chain, our_head, our_height)[k] == (
                chain[k + 1],
                our_height + 1 + k,
            ),
{
}

/// A job that pings a peer about a bucket.
#[derive(Debug, Clone, Copy, PartialEq, Eq, Structural)]
pub struct PingPeerJob {
    pub bucket_id: u128,
    pub peer_id: u64,
}

impl PingPeerJob {
    /// The ping to send, from our head and height for the bucket; none when
    /// we have no head for it, and the job then ends without pinging.
    pub fn ping(&self, our_head: Option<(Link, u64)>, our_id: u64) -> (r: Option<Ping>)
        ensures
            match our_head {
                Some((link, height)) => r == Some(
                    Ping { bucket_id: self.bucket_id, link, height, requester_id: our_id },
                ),
                None => r is None,
            },
    {
        match our_head {
            Some((link, height)) => Some(
                Ping { bucket_id: self.bucket_id, link, height, requester_id: our_id },
            ),
            None => None,
        }
    }
}

} // verus!
