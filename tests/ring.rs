use bns_core::ring::between_half_open;
use bns_core::ring::between_open;
use bns_core::ring::clockwise;
use bns_core::ring::index_of;
use bns_core::ring::lookup;
use bns_core::ring::settled_ring;
use bns_core::ring::Lookup;
use bns_core::ring::PeerRing;

fn owner(ids: &[u64], t: u64) -> u64 {
    let mut best = ids[0];
    for &x in ids {
        if clockwise(t, x) < clockwise(t, best) {
            best = x;
        }
    }
    best
}

#[test]
fn clockwise_distance_wraps() {
    assert_eq!(clockwise(10, 30), 20);
    assert_eq!(clockwise(30, 10), u64::MAX - 19);
    assert_eq!(clockwise(u64::MAX, 0), 1);
    assert_eq!(clockwise(7, 7), 0);
}

#[test]
fn intervals_on_the_ring() {
    assert!(between_half_open(10, 20, 20));
    assert!(!between_half_open(10, 10, 20));
    assert!(between_half_open(u64::MAX - 1, 3, 5));
    assert!(between_half_open(4, 4, 4));
    assert!(between_open(10, 15, 20));
    assert!(!between_open(10, 20, 20));
    assert!(between_open(10, 3, 10));
    assert!(!between_open(10, 10, 10));
}

#[test]
fn new_node_knows_nothing() {
    let r = PeerRing::new(42, 3);
    assert_eq!(r.did, 42);
    assert_eq!(r.successor, None);
    assert_eq!(r.predecessor, None);
    assert_eq!(r.finger, vec![None, None, None]);
    assert!(matches!(r.find_successor(7), Lookup::Found(42)));
}

#[test]
fn finger_points() {
    let r = PeerRing::new(5, 64);
    assert_eq!(r.finger_start(0), 6);
    assert_eq!(r.finger_start(3), 13);
    assert_eq!(r.finger_start(63), 5 + (1u64 << 63));
    let top = PeerRing::new(u64::MAX, 2);
    assert_eq!(top.finger_start(0), 0);
    assert_eq!(top.finger_start(1), 1);
}

#[test]
fn find_successor_steps() {
    let mut r = PeerRing::new(10, 3);
    r.join(20);
    r.fix_finger(0, 20);
    r.fix_finger(1, 40);
    r.fix_finger(2, 60);
    assert!(matches!(r.find_successor(15), Lookup::Found(20)));
    assert!(matches!(r.find_successor(20), Lookup::Found(20)));
    assert!(matches!(r.find_successor(10), Lookup::Found(10)));
    assert!(matches!(r.find_successor(50), Lookup::Forward(40)));
    assert!(matches!(r.find_successor(70), Lookup::Forward(60)));
    assert!(matches!(r.find_successor(5), Lookup::Forward(60)));
    assert!(matches!(r.find_successor(30), Lookup::Forward(20)));
}

#[test]
fn stabilize_adopts_closer_successor() {
    let mut r = PeerRing::new(10, 0);
    r.join(30);
    assert_eq!(r.stabilize(Some(20)), Some(20));
    assert_eq!(r.successor, Some(20));
    assert_eq!(r.stabilize(Some(40)), Some(20));
    assert_eq!(r.stabilize(Some(10)), Some(20));
    assert_eq!(r.stabilize(None), Some(20));
}

#[test]
fn notify_sets_predecessor() {
    let mut r = PeerRing::new(50, 0);
    r.notify(50);
    assert_eq!(r.predecessor, None);
    r.notify(10);
    assert_eq!(r.predecessor, Some(10));
    assert_eq!(r.successor, Some(10));
    r.notify(30);
    assert_eq!(r.predecessor, Some(30));
    r.notify(20);
    assert_eq!(r.predecessor, Some(30));
    assert_eq!(r.successor, Some(10));
}

#[test]
fn unreachable_successor_falls_back_to_finger() {
    let mut r = PeerRing::new(10, 3);
    r.join(20);
    r.notify(90);
    r.fix_finger(0, 20);
    r.fix_finger(1, 20);
    r.fix_finger(2, 50);
    r.remove_peer(20);
    assert_eq!(r.successor, Some(50));
    assert_eq!(r.finger, vec![None, None, Some(50)]);
    assert_eq!(r.predecessor, Some(90));
    r.remove_peer(90);
    assert_eq!(r.predecessor, None);
    r.remove_peer(50);
    assert_eq!(r.successor, None);
}

#[test]
fn sorted_ring_neighbours() {
    for ids in [vec![7u64], vec![3, 9], vec![1, 5, 100, u64::MAX]] {
        let ring = settled_ring(&ids, 2);
        let n = ids.len();
        for i in 0..n {
            assert_eq!(ring[i].did, ids[i]);
            assert_eq!(ring[i].successor, Some(ids[(i + 1) % n]));
            assert_eq!(ring[i].predecessor, Some(ids[(i + n - 1) % n]));
        }
    }
}

#[test]
fn settled_ring_is_stable() {
    let ids = vec![2u64, 40, 41, 900];
    let mut ring = settled_ring(&ids, 0);
    for _ in 0..3 {
        for i in 0..ring.len() {
            let s = ring[i].successor.unwrap();
            let j = index_of(&ring, s).unwrap();
            let sp = ring[j].predecessor;
            let me = ring[i].did;
            let notify = ring[i].stabilize(sp).unwrap();
            let k = index_of(&ring, notify).unwrap();
            ring[k].notify(me);
        }
    }
    for i in 0..ring.len() {
        assert_eq!(ring[i].successor, Some(ids[(i + 1) % 4]));
        assert_eq!(ring[i].predecessor, Some(ids[(i + 3) % 4]));
    }
}

#[test]
fn stabilization_converges_after_joins() {
    let mut ring = vec![PeerRing::new(100, 0), PeerRing::new(300, 0), PeerRing::new(200, 0)];
    ring[1].join(100);
    ring[2].join(100);
    for _ in 0..4 {
        for i in 0..ring.len() {
            let me = ring[i].did;
            let sp = match ring[i].successor {
                Some(s) => ring[index_of(&ring, s).unwrap()].predecessor,
                None => None,
            };
            if let Some(n) = ring[i].stabilize(sp) {
                let k = index_of(&ring, n).unwrap();
                ring[k].notify(me);
            }
        }
    }
    assert_eq!(ring[0].successor, Some(200));
    assert_eq!(ring[2].successor, Some(300));
    assert_eq!(ring[1].successor, Some(100));
    assert_eq!(ring[0].predecessor, Some(300));
    assert_eq!(ring[2].predecessor, Some(100));
    assert_eq!(ring[1].predecessor, Some(200));
}

#[test]
fn lookup_finds_owner() {
    let ids = vec![10u64, 20, 35, 1000, u64::MAX - 5];
    let mut ring = settled_ring(&ids, 64);
    for i in 0..ring.len() {
        for f in 0..64 {
            let start = ring[i].finger_start(f);
            let o = owner(&ids, start);
            ring[i].fix_finger(f, o);
        }
    }
    for t in [0u64, 10, 11, 20, 21, 34, 35, 36, 999, 1000, 1001, u64::MAX - 5, u64::MAX] {
        for s in 0..ring.len() {
            assert_eq!(lookup(&ring, s, t), owner(&ids, t));
        }
    }
    assert_eq!(lookup(&ring, 0, u64::MAX), 10);
    assert_eq!(lookup(&ring, 3, 21), 35);
}

#[test]
fn lookup_with_successors_only() {
    let ids = vec![5u64, 6, 7, 8];
    let ring = settled_ring(&ids, 0);
    assert_eq!(lookup(&ring, 0, 8), 8);
    assert_eq!(lookup(&ring, 1, 4), 5);
    assert_eq!(lookup(&ring, 3, 9), 5);
    assert_eq!(index_of(&ring, 7), Some(2));
    assert_eq!(index_of(&ring, 9), None);
}

#[test]
fn lookup_degrades_to_known_peer() {
    let mut a = PeerRing::new(10, 1);
    a.join(20);
    a.fix_finger(0, 60);
    let mut b = PeerRing::new(20, 0);
    b.join(10);
    let ring = vec![a, b];
    assert_eq!(lookup(&ring, 0, 70), 60);
    assert_eq!(lookup(&ring, 0, 15), 20);
}
