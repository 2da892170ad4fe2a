use push_pull::AlwaysParticipate;
use push_pull::NeverParticipate;
use push_pull::Node;
use push_pull::ParticipationPolicy;
use push_pull::PushPullResponse;
use push_pull::RandomParticipation;
use push_pull::policy::clamp_share;

/// Drives one full round between `v1` and `v2` with both gates forced
/// active; `v1`'s view must be `{2}` so that the request goes to `v2`.
fn run_proto(v1: &mut Node, v2: &mut Node) {
    let gate = AlwaysParticipate;
    let req = v1.start_push_pull(&gate).expect("gate is always active");
    assert_eq!(req.to, 2);
    let res = v2.handle_push_pull_request(req, &gate);
    assert_eq!(res.to, 1);
    v1.handle_push_pull_response(res);
}

#[test]
fn case_0() {
    let mut v1 = Node::new(1);
    v1.add_conn(2);
    let mut v2 = Node::new(2);
    v2.add_conn(3);
    let v3 = Node::new(3);

    run_proto(&mut v1, &mut v2);

    assert_eq!(v1.view_len(), 1);
    assert!(v1.contains_peer(3));
    assert_eq!(v2.view_len(), 1);
    assert!(v2.contains_peer(1));
    assert_eq!(v3.view_len(), 0);
}

#[test]
fn case_1() {
    let mut v1 = Node::new(1);
    v1.add_conn(2);
    let mut v2 = Node::new(2);
    v2.add_conn(1);

    run_proto(&mut v1, &mut v2);

    assert_eq!(v1.view_len(), 1);
    assert!(v1.contains_peer(1));
    assert_eq!(v2.view_len(), 1);
    assert!(v2.contains_peer(1));
}

#[test]
fn case_2() {
    let mut v1 = Node::new(1);
    v1.add_conn(2);
    let mut v2 = Node::new(2);
    v2.add_conn(2);

    run_proto(&mut v1, &mut v2);

    assert_eq!(v1.view_len(), 1);
    assert!(v1.contains_peer(2));
    assert_eq!(v2.view_len(), 1);
    assert!(v2.contains_peer(1));
}

#[test]
fn add_conn_is_idempotent() {
    let mut n = Node::new(1);
    assert_eq!(n.id(), 1);
    assert!(n.add_conn(7));
    assert_eq!(n.view_len(), 1);
    assert!(n.contains_peer(7));
    assert!(!n.add_conn(7));
    assert_eq!(n.view_len(), 1);
    assert!(n.contains_peer(7));
}

#[test]
fn add_conn_accepts_own_id() {
    let mut n = Node::new(5);
    assert!(n.add_conn(5));
    assert!(n.contains_peer(5));
}

#[test]
fn declined_start_produces_nothing() {
    let gate = NeverParticipate;
    let mut v1 = Node::new(1);
    v1.add_conn(2);
    assert!(v1.start_push_pull(&gate).is_none());
    assert_eq!(v1.view_len(), 1);
    assert!(v1.contains_peer(2));
}

#[test]
fn declined_response_is_noop_for_both() {
    let active = AlwaysParticipate;
    let idle = NeverParticipate;
    let mut v1 = Node::new(1);
    v1.add_conn(2);
    let mut v2 = Node::new(2);
    v2.add_conn(3);

    let req = v1.start_push_pull(&active).expect("gate is always active");
    let res = v2.handle_push_pull_request(req, &idle);
    assert_eq!(res.selected, None);
    assert_eq!(v2.view_len(), 1);
    assert!(v2.contains_peer(3));

    v1.handle_push_pull_response(res);
    assert_eq!(v1.view_len(), 1);
    assert!(v1.contains_peer(2));
}

#[test]
fn absent_selection_leaves_view_unchanged() {
    let mut n = Node::new(1);
    n.add_conn(2);
    n.handle_push_pull_response(PushPullResponse { from: 2, to: 1, selected: None });
    assert_eq!(n.view_len(), 1);
    assert!(n.contains_peer(2));
}

#[test]
fn response_replaces_responder_by_selected() {
    let mut n = Node::new(1);
    n.add_conn(2);
    n.add_conn(9);
    n.handle_push_pull_response(PushPullResponse { from: 2, to: 1, selected: Some(4) });
    assert_eq!(n.view_len(), 2);
    assert!(!n.contains_peer(2));
    assert!(n.contains_peer(4));
    assert!(n.contains_peer(9));
}

#[test]
fn empty_view_start_targets_self() {
    let gate = AlwaysParticipate;
    let mut n = Node::new(6);
    let req = n.start_push_pull(&gate).expect("gate is always active");
    assert_eq!(req.from, 6);
    assert_eq!(req.to, 6);
    assert_eq!(n.view_len(), 0);
}

#[test]
fn empty_view_responder_selects_self() {
    let gate = AlwaysParticipate;
    let mut v1 = Node::new(1);
    v1.add_conn(2);
    let mut v2 = Node::new(2);
    let req = v1.start_push_pull(&gate).expect("gate is always active");
    assert_eq!(req.to, 2);
    let res = v2.handle_push_pull_request(req, &gate);
    assert_eq!(res.from, 2);
    assert_eq!(res.to, 1);
    assert_eq!(res.selected, Some(2));
    assert_eq!(v2.view_len(), 1);
    assert!(v2.contains_peer(1));
    v1.handle_push_pull_response(res);
    assert_eq!(v1.view_len(), 1);
    assert!(v1.contains_peer(2));
}

#[test]
fn clamp_share_stays_within_degree() {
    assert_eq!(clamp_share(0, 4), 0);
    assert_eq!(clamp_share(3, 4), 3);
    assert_eq!(clamp_share(4, 4), 4);
    assert_eq!(clamp_share(4000, 4), 4);
    assert_eq!(clamp_share(usize::MAX, 4), 4);
}

#[test]
fn oversized_view_never_panics_the_gate() {
    let gate = RandomParticipation;
    for view_size in [0, 1, 4, 5, 400, 4_000_000, usize::MAX] {
        for _ in 0..100 {
            let _ = gate.participate(view_size, 4);
        }
    }
}

#[test]
fn gate_is_certain_at_the_extremes() {
    let gate = RandomParticipation;
    for _ in 0..1000 {
        assert!(!gate.participate(0, 4));
        assert!(gate.participate(4, 4));
        assert!(gate.participate(4000, 4));
    }
}

#[test]
fn selection_is_roughly_uniform() {
    let gate = AlwaysParticipate;
    let mut n = Node::new(0);
    for peer in 1..=4 {
        n.add_conn(peer);
    }
    let trials = 40_000;
    let mut counts = [0usize; 5];
    for _ in 0..trials {
        let req = n.start_push_pull(&gate).expect("gate is always active");
        counts[req.to as usize] += 1;
    }
    for peer in 1..=4 {
        // expected frequency 1/4; allow [0.2, 0.3]
        assert!(counts[peer] >= trials / 5, "peer {} drawn {} times", peer, counts[peer]);
        assert!(counts[peer] <= trials * 3 / 10, "peer {} drawn {} times", peer, counts[peer]);
    }
}
