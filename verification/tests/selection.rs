use fardbot::member::Member;
use fardbot::selection::{eligible_members, pick_random, select_targets, SelectionPolicy};
use std::collections::HashSet;

fn members(ids: &[u64]) -> Vec<Member> {
    ids.iter().map(|&id| Member { id, renamable: true }).collect()
}

fn ids(members: &[Member]) -> Vec<u64> {
    members.iter().map(|member| member.id).collect()
}

fn distinct(ids: &[u64]) -> bool {
    let set: HashSet<u64> = ids.iter().copied().collect();
    set.len() == ids.len()
}

#[test]
fn member_is_protected_by_flag_or_by_identity() {
    let protected: HashSet<u64> = [7].into_iter().collect();
    assert!(Member { id: 7, renamable: true }.is_protected(&protected));
    assert!(Member { id: 8, renamable: false }.is_protected(&protected));
    assert!(Member { id: 7, renamable: false }.is_protected(&protected));
    assert!(!Member { id: 8, renamable: true }.is_protected(&protected));
}

#[test]
fn eligible_members_keeps_the_order_and_drops_the_protected() {
    let protected: HashSet<u64> = [2, 5].into_iter().collect();
    let mut candidates = members(&[1, 2, 3, 4, 5]);
    candidates[2].renamable = false;
    assert_eq!(ids(&eligible_members(&candidates, &protected)), vec![1, 4]);
    assert!(eligible_members(&Vec::new(), &protected).is_empty());
}

#[test]
fn pick_random_of_one_gives_one_of_them() {
    let users = members(&[10, 20, 30]);
    let mut seen = HashSet::new();
    for _ in 0..200 {
        let picked = pick_random(1, users.clone());
        assert_eq!(picked.len(), 1);
        assert!(users.contains(&picked[0]));
        seen.insert(picked[0].id);
    }
    assert!(seen.len() > 1);
}

#[test]
fn pick_random_of_none_still_gives_one() {
    let users = members(&[10, 20, 30]);
    let picked = pick_random(0, users.clone());
    assert_eq!(picked.len(), 1);
    assert!(users.contains(&picked[0]));
}

#[test]
fn pick_random_of_several_gives_that_many_distinct() {
    let users = members(&[1, 2, 3, 4, 5, 6, 7, 8]);
    let mut orders = HashSet::new();
    for _ in 0..100 {
        let picked = pick_random(3, users.clone());
        assert_eq!(picked.len(), 3);
        assert!(picked.iter().all(|member| users.contains(member)));
        assert!(distinct(&ids(&picked)));
        orders.insert(ids(&picked));
    }
    assert!(orders.len() > 1);
}

#[test]
fn pick_random_gives_all_where_fewer_than_asked() {
    let users = members(&[1, 2, 3]);
    let picked = pick_random(10, users.clone());
    let mut got = ids(&picked);
    got.sort();
    assert_eq!(got, vec![1, 2, 3]);
}

#[test]
fn pick_random_from_nobody_gives_nobody() {
    assert!(pick_random(1, Vec::new()).is_empty());
    assert!(pick_random(0, Vec::new()).is_empty());
    assert!(pick_random(4, Vec::new()).is_empty());
}

#[test]
fn single_selects_one_unprotected_member() {
    let protected: HashSet<u64> = [1, 2].into_iter().collect();
    let candidates = members(&[1, 2, 3, 4]);
    for _ in 0..100 {
        let targets = select_targets(candidates.clone(), SelectionPolicy::Single, &protected);
        assert_eq!(targets.len(), 1);
        assert!(targets[0].id == 3 || targets[0].id == 4);
    }
}

#[test]
fn single_selects_nobody_where_all_are_protected() {
    let protected: HashSet<u64> = [1, 2].into_iter().collect();
    let mut candidates = members(&[1, 2, 3]);
    candidates[2].renamable = false;
    assert!(select_targets(candidates, SelectionPolicy::Single, &protected).is_empty());
    assert!(select_targets(Vec::new(), SelectionPolicy::Single, &protected).is_empty());
}

#[test]
fn multiple_selects_at_least_three_and_fewer_than_all() {
    let protected = HashSet::new();
    let candidates = members(&[1, 2, 3, 4, 5, 6, 7, 8, 9, 10]);
    let mut sizes = HashSet::new();
    for _ in 0..300 {
        let targets = select_targets(candidates.clone(), SelectionPolicy::Multiple, &protected);
        assert!(3 <= targets.len() && targets.len() < 10);
        assert!(distinct(&ids(&targets)));
        assert!(targets.iter().all(|member| candidates.contains(member)));
        sizes.insert(targets.len());
    }
    assert!(sizes.len() > 1);
}

#[test]
fn multiple_of_four_candidates_selects_three() {
    let protected = HashSet::new();
    let candidates = members(&[1, 2, 3, 4]);
    for _ in 0..50 {
        let targets = select_targets(candidates.clone(), SelectionPolicy::Multiple, &protected);
        assert_eq!(targets.len(), 3);
        assert!(distinct(&ids(&targets)));
    }
}

#[test]
fn multiple_of_three_or_fewer_selects_all() {
    let protected: HashSet<u64> = [2].into_iter().collect();
    for n in 0..=3u64 {
        let all: Vec<u64> = (1..=n).collect();
        let candidates = members(&all);
        let targets = select_targets(candidates.clone(), SelectionPolicy::Multiple, &protected);
        assert_eq!(targets, candidates);
    }
}

#[test]
fn multiple_does_not_leave_the_protected_out() {
    let protected: HashSet<u64> = [1, 2, 3, 4, 5].into_iter().collect();
    let candidates = members(&[1, 2, 3, 4, 5]);
    let targets = select_targets(candidates, SelectionPolicy::Multiple, &protected);
    assert!(3 <= targets.len() && targets.len() < 5);
}

#[test]
fn all_selects_every_candidate_in_order() {
    let protected: HashSet<u64> = [2].into_iter().collect();
    let candidates = members(&[5, 2, 9, 1]);
    let targets = select_targets(candidates.clone(), SelectionPolicy::All, &protected);
    assert_eq!(targets, candidates);
    assert!(select_targets(Vec::new(), SelectionPolicy::All, &protected).is_empty());
}
