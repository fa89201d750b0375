use content_exchange::membership::{bytes_equal, MembershipView, PeerId};

fn peer(name: &str) -> PeerId {
    PeerId::from_bytes(name.as_bytes().to_vec())
}

#[test]
fn bytes_equal_compares_contents() {
    assert!(bytes_equal(b"", b""));
    assert!(bytes_equal(b"abc", b"abc"));
    assert!(!bytes_equal(b"abc", b"abd"));
    assert!(!bytes_equal(b"abc", b"ab"));
    assert!(!bytes_equal(b"", b"a"));
}

#[test]
fn peer_id_keeps_its_bytes() {
    let p = PeerId::from_bytes(vec![1, 2, 3]);
    assert_eq!(p.as_bytes(), &[1, 2, 3]);
    assert_eq!(p.duplicate().as_bytes(), &[1, 2, 3]);
    assert!(p.same_as(&p.duplicate()));
    assert!(!p.same_as(&PeerId::from_bytes(vec![1, 2])));
}

#[test]
fn new_view_is_empty() {
    let view = MembershipView::new();
    assert!(view.is_empty());
    assert!(!view.contains(&peer("x")));
    assert!(view.peers().is_empty());
}

#[test]
fn observed_peer_is_in_the_view() {
    let mut view = MembershipView::new();
    assert!(view.observe(peer("x")));
    assert!(view.contains(&peer("x")));
    assert!(!view.contains(&peer("y")));
    assert!(!view.is_empty());
}

#[test]
fn observing_twice_keeps_one_entry() {
    let mut view = MembershipView::new();
    assert!(view.observe(peer("x")));
    assert!(!view.observe(peer("x")));
    assert_eq!(view.peers(), vec![peer("x")]);
}

#[test]
fn removed_peer_is_gone_at_once() {
    let mut view = MembershipView::new();
    view.observe(peer("x"));
    view.observe(peer("y"));
    assert!(view.remove(&peer("x")));
    assert!(!view.contains(&peer("x")));
    assert!(view.contains(&peer("y")));
    assert_eq!(view.peers(), vec![peer("y")]);
}

#[test]
fn removing_an_absent_peer_changes_nothing() {
    let mut view = MembershipView::new();
    assert!(!view.remove(&peer("x")));
    assert!(view.is_empty());

    view.observe(peer("a"));
    view.observe(peer("b"));
    assert!(!view.remove(&peer("x")));
    assert_eq!(view.peers(), vec![peer("a"), peer("b")]);
}

#[test]
fn removing_twice_is_removing_once() {
    let mut view = MembershipView::new();
    view.observe(peer("a"));
    view.observe(peer("y"));
    assert!(view.remove(&peer("y")));
    assert!(!view.remove(&peer("y")));
    assert_eq!(view.peers(), vec![peer("a")]);
}

#[test]
fn peers_keep_their_order_of_entry() {
    let mut view = MembershipView::new();
    for name in ["c", "a", "b"] {
        view.observe(peer(name));
    }
    assert_eq!(view.peers(), vec![peer("c"), peer("a"), peer("b")]);
    view.remove(&peer("a"));
    view.observe(peer("a"));
    assert_eq!(view.peers(), vec![peer("c"), peer("b"), peer("a")]);
}
