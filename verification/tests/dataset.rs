use forcelayout::create_dataset::create_bubbles;
use forcelayout::create_dataset::create_edges;
use forcelayout::fixed::SCALE;
use forcelayout::id_generator::IdGenerator;

#[test]
fn id_generator_counts_from_zero() {
    let mut ids = IdGenerator::new();
    assert_eq!(ids.count(), 0);
    assert_eq!(ids.get(), 0);
    assert_eq!(ids.get(), 1);
    assert_eq!(ids.get(), 2);
    assert_eq!(ids.count(), 3);
}

#[test]
fn new_id_peeks_without_advancing() {
    let mut ids = IdGenerator::new();
    assert_eq!(ids.new_id(), 0);
    assert_eq!(ids.new_id(), 0);
    assert_eq!(ids.count(), 0);
    assert_eq!(ids.get(), 0);
    assert_eq!(ids.new_id(), 1);
}

#[test]
fn created_bubbles_start_at_rest_in_range() {
    let bubbles = create_bubbles(40);
    assert_eq!(bubbles.len(), 40);
    for b in bubbles.iter() {
        assert_eq!(b.v.x, 0);
        assert_eq!(b.v.y, 0);
        assert_eq!(b.a.x, 0);
        assert_eq!(b.a.y, 0);
        assert!(b.size >= SCALE && b.size < 25 * SCALE);
        assert!(b.position.x >= -50 * SCALE && b.position.x < 50 * SCALE);
        assert!(b.position.y >= -50 * SCALE && b.position.y < 50 * SCALE);
    }
}

#[test]
fn created_bubbles_are_not_all_identical() {
    // 64 draws of a 100-unit range collapsing to one point would mean the
    // randomness never reached the positions
    let bubbles = create_bubbles(64);
    let first = (bubbles[0].position.x, bubbles[0].position.y, bubbles[0].size);
    let all_same = bubbles
        .iter()
        .all(|b| (b.position.x, b.position.y, b.size) == first);
    assert!(!all_same);
}

#[test]
fn grouped_edges_star_each_group() {
    let edges = create_edges(7, 3);
    let pairs: Vec<(usize, usize)> = edges.iter().map(|e| (e.from, e.to)).collect();
    assert_eq!(pairs, vec![(0, 1), (0, 2), (3, 4), (3, 5)]);
    for e in edges.iter() {
        assert_eq!(e.pull_force, 0);
    }
}

#[test]
fn grouped_edges_exact_division() {
    let edges = create_edges(6, 3);
    let pairs: Vec<(usize, usize)> = edges.iter().map(|e| (e.from, e.to)).collect();
    assert_eq!(pairs, vec![(0, 1), (0, 2), (3, 4), (3, 5)]);
}

#[test]
fn grouped_edges_degenerate_cases() {
    assert_eq!(create_edges(0, 3).len(), 0);
    assert_eq!(create_edges(5, 1).len(), 0);
    let single_group = create_edges(4, 10);
    let pairs: Vec<(usize, usize)> = single_group.iter().map(|e| (e.from, e.to)).collect();
    assert_eq!(pairs, vec![(0, 1), (0, 2), (0, 3)]);
}
