use jax::bucket_log::{
    canonical_chain, find_orphaned_branches, find_orphaned_branches_excluding, pick_head,
    BucketLogEntry, BucketLogError, Link,
};
use jax::sync::{
    append_heights, decide_update, find_common_ancestor, next_in_chain, order_downloaded_chain,
    sync_mode, verify_provenance, HeightLookup, PPong, Ping, PingHandler, SyncMode, UpdateDecision,
};

fn l(id: u64) -> Link {
    Link { id }
}

fn e(cur: u64, prev: Option<u64>, height: u64) -> BucketLogEntry {
    BucketLogEntry { current_link: l(cur), previous_link: prev.map(l), height }
}

#[test]
fn head_is_the_largest_link() {
    let r: Result<(Link, u64), BucketLogError<String>> = pick_head(&vec![l(3), l(9), l(4)], 7);
    assert!(matches!(r, Ok((h, 7)) if h == l(9)));
    let r: Result<(Link, u64), BucketLogError<String>> = pick_head(&vec![], 2);
    assert!(matches!(r, Err(BucketLogError::HeadNotFound(2))));
}

#[test]
fn orphaned_branches_are_off_the_chain() {
    // 1 <- 2 <- 3 is canonical, 4 forks from 2, 5 forks from 1.
    let entries = vec![e(1, None, 0), e(2, Some(1), 1), e(3, Some(2), 2), e(4, Some(2), 2), e(5, Some(1), 1)];
    let chain = canonical_chain(&entries, l(3));
    assert_eq!(chain, vec![l(3), l(2), l(1)]);
    let orphans = find_orphaned_branches(&entries, l(3));
    let links: Vec<u64> = orphans.iter().map(|o| o.link.id).collect();
    assert_eq!(links, vec![4, 5]);
    assert_eq!(orphans[0].height, 2);
    assert_eq!(orphans[0].previous, Some(l(2)));
    let rest = find_orphaned_branches_excluding(&entries, l(3), &vec![l(4)]);
    assert_eq!(rest.len(), 1);
    assert_eq!(rest[0].link, l(5));
}

#[test]
fn ping_exchange() {
    let ping = Ping { bucket_id: 7, link: l(10), height: 5, requester_id: 1 };
    let behind = PingHandler::handle_request(&ping, Some((l(8), 3)), 2);
    assert_eq!(behind.status, PPong::Behind(l(8), 3));
    let job = PingHandler::after_response_sent(&ping, &behind).unwrap();
    assert_eq!((job.target_link, job.target_height, job.peer_id), (l(10), 5, 1));
    assert!(PingHandler::handle_response(&behind).is_none());

    let ahead = PingHandler::handle_request(&ping, Some((l(12), 9)), 2);
    assert_eq!(ahead.status, PPong::Ahead(l(12), 9));
    assert!(PingHandler::after_response_sent(&ping, &ahead).is_none());
    let job = PingHandler::handle_response(&ahead).unwrap();
    assert_eq!((job.target_link, job.target_height, job.peer_id), (l(12), 9, 2));

    let same = PingHandler::handle_request(&ping, Some((l(10), 5)), 2);
    assert_eq!(same.status, PPong::InSync);
    let fork = PingHandler::handle_request(&ping, Some((l(11), 5)), 2);
    assert_eq!(fork.status, PPong::Forked(l(11), 5));
    assert!(PingHandler::after_response_sent(&ping, &fork).is_none());
    assert!(PingHandler::handle_response(&fork).is_none());
    let none = PingHandler::handle_request(&ping, None, 2);
    assert_eq!(none.status, PPong::NotFound);
    assert!(PingHandler::after_response_sent(&ping, &none).is_none());
}

#[test]
fn sync_steps() {
    assert_eq!(sync_mode(HeightLookup::Found(3)), SyncMode::UpdateExisting);
    assert_eq!(sync_mode(HeightLookup::HeadNotFound), SyncMode::Clone);
    assert_eq!(sync_mode(HeightLookup::Failed), SyncMode::Fail);
    assert_eq!(next_in_chain(l(3), Some(l(3)), Some(l(2))), None);
    assert_eq!(next_in_chain(l(3), Some(l(1)), Some(l(2))), Some(l(2)));
    assert_eq!(next_in_chain(l(3), None, None), None);
    let ordered = order_downloaded_chain(&vec![l(9), l(8), l(7)]);
    assert_eq!(ordered, vec![(l(7), 0), (l(8), 1), (l(9), 2)]);
    assert_eq!(find_common_ancestor(&vec![l(5), l(4), l(3)], &vec![false, true, true]), Some(l(4)));
    assert_eq!(find_common_ancestor(&vec![l(5)], &vec![false]), None);
    assert_eq!(decide_update(0, None, l(1)), UpdateDecision::UpToDate);
    assert_eq!(decide_update(2, None, l(1)), UpdateDecision::NoCommonAncestor);
    assert_eq!(decide_update(2, Some(l(1)), l(1)), UpdateDecision::Apply);
    assert_eq!(decide_update(2, Some(l(0)), l(1)), UpdateDecision::Fork(l(0)));
    assert_eq!(append_heights(4, 3), vec![5, 6, 7]);
    let keys = vec!["a".to_string(), "b".to_string()];
    assert!(verify_provenance(&keys, &"b".to_string()));
    assert!(!verify_provenance(&keys, &"c".to_string()));
}

use jax::sync::PingPeerJob;

#[test]
fn ping_jobs() {
    let job = PingPeerJob { bucket_id: 9, peer_id: 4 };
    assert!(job.ping(None, 1).is_none());
    let p = job.ping(Some((l(3), 7)), 1).unwrap();
    assert_eq!((p.bucket_id, p.link, p.height, p.requester_id), (9, l(3), 7, 1));
}

use jax::bucket_log::chain_terminates;

#[test]
fn chains_with_cycles_do_not_end() {
    let entries = vec![e(1, None, 0), e(2, Some(1), 1)];
    assert!(chain_terminates(&entries, l(2)));
    assert!(chain_terminates(&entries, l(9)));
    let cyclic = vec![e(1, Some(2), 0), e(2, Some(1), 1), e(3, Some(2), 2)];
    assert!(!chain_terminates(&cyclic, l(3)));
    assert!(!chain_terminates(&vec![e(5, Some(5), 0)], l(5)));
    assert!(chain_terminates(&vec![], l(5)));
}

use jax::sync::manifests_to_append;

#[test]
fn updates_append_only_what_is_missing() {
    assert_eq!(manifests_to_append(&vec![l(4), l(5), l(6)], l(4), 10), vec![(l(5), 11), (l(6), 12)]);
    assert_eq!(manifests_to_append(&vec![l(4)], l(4), 10), vec![]);
    assert_eq!(manifests_to_append(&vec![l(5), l(6)], l(4), 0), vec![(l(5), 1), (l(6), 2)]);
}
