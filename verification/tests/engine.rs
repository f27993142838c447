use forcelayout::bubble::Bubble;
use forcelayout::edge::Edge;
use forcelayout::fixed::SCALE;
use forcelayout::forcelayout::forcelayout;
use forcelayout::math::Vector2;
use forcelayout::orchestrator::Backend;
use forcelayout::orchestrator::Orchestrator;
use forcelayout::physics::repulsion_force_between;
use forcelayout::physics::Physics;
use forcelayout::physics::SimParams;

fn vec2(x: i64, y: i64) -> Vector2 {
    Vector2 { x, y }
}

fn bubble(size: i64, x: i64, y: i64) -> Bubble {
    Bubble::new(size, vec2(x, y))
}

fn speed2(v: &Vector2) -> i128 {
    v.x as i128 * v.x as i128 + v.y as i128 * v.y as i128
}

#[test]
fn concrete_two_bubble_scenario() {
    // two unit masses at (-1, 0) and (1, 0), no edges, k_rep = 1, dt = 0.01
    let params = SimParams::new(SCALE, SCALE, 10_000, 900_000);
    let mut bubbles = vec![bubble(SCALE, -SCALE, 0), bubble(SCALE, SCALE, 0)];
    let mut edges: Vec<Edge> = vec![];
    forcelayout(&mut bubbles, &mut edges, &params);
    assert_eq!(bubbles[0].position.x, -1_000_025);
    assert_eq!(bubbles[1].position.x, 1_000_025);
    assert_eq!(bubbles[0].position.y, 0);
    assert_eq!(bubbles[1].position.y, 0);
    assert_eq!(bubbles[0].v.x, -2_500);
    assert_eq!(bubbles[1].v.x, 2_500);
    // both moved strictly further apart along the x-axis
    assert!(bubbles[1].position.x - bubbles[0].position.x > 2 * SCALE);
}

#[test]
fn symmetric_pair_stays_symmetric() {
    let params = SimParams::default();
    let mut bubbles = vec![bubble(2 * SCALE, 3 * SCALE, 2 * SCALE), bubble(2 * SCALE, -3 * SCALE, -2 * SCALE)];
    let mut edges: Vec<Edge> = vec![];
    for _ in 0..10 {
        forcelayout(&mut bubbles, &mut edges, &params);
        assert_eq!(bubbles[0].position.x, -bubbles[1].position.x);
        assert_eq!(bubbles[0].position.y, -bubbles[1].position.y);
        assert_eq!(bubbles[0].v.x, -bubbles[1].v.x);
        assert_eq!(bubbles[0].v.y, -bubbles[1].v.y);
    }
}

#[test]
fn isolated_bubble_never_moves() {
    let params = SimParams::default();
    let mut bubbles = vec![bubble(3 * SCALE, 5 * SCALE, -3 * SCALE)];
    let mut edges: Vec<Edge> = vec![];
    for _ in 0..5 {
        forcelayout(&mut bubbles, &mut edges, &params);
        assert_eq!(bubbles[0].position.x, 5 * SCALE);
        assert_eq!(bubbles[0].position.y, -3 * SCALE);
        assert_eq!(bubbles[0].v.x, 0);
        assert_eq!(bubbles[0].v.y, 0);
        assert_eq!(bubbles[0].a.x, 0);
        assert_eq!(bubbles[0].a.y, 0);
    }
}

#[test]
fn repulsion_obeys_third_law() {
    let pa = vec2(SCALE / 2, -3 * SCALE);
    let pb = vec2(2 * SCALE, 7 * SCALE / 2);
    let f_ab = repulsion_force_between(SCALE, 2 * SCALE, 5 * SCALE, &pa, &pb);
    let f_ba = repulsion_force_between(SCALE, 5 * SCALE, 2 * SCALE, &pb, &pa);
    assert_eq!(f_ab.x, -f_ba.x);
    assert_eq!(f_ab.y, -f_ba.y);
    assert!(f_ab.x != 0 || f_ab.y != 0);
}

#[test]
fn repulsion_falls_off_with_inverse_square() {
    let origin = vec2(0, 0);
    let near = repulsion_force_between(SCALE, SCALE, SCALE, &origin, &vec2(2 * SCALE, 0));
    let far = repulsion_force_between(SCALE, SCALE, SCALE, &origin, &vec2(4 * SCALE, 0));
    assert_eq!(near.x, -250_000);
    assert_eq!(far.x, -62_500);
    // doubling the separation cut the magnitude to a quarter, exactly
    assert_eq!(far.x, near.x / 4);
    assert!(far.x.abs() < near.x.abs());
}

#[test]
fn pull_force_is_proportional_to_separation() {
    let params = SimParams::new(SCALE, SCALE, 10_000, 900_000);
    let mut bubbles = vec![bubble(SCALE, 0, 0), bubble(SCALE, 3 * SCALE, 0)];
    let mut edges = vec![Edge::new(0, 1)];
    forcelayout(&mut bubbles, &mut edges, &params);
    assert_eq!(edges[0].pull_force, 3 * SCALE);

    let mut bubbles2 = vec![bubble(SCALE, 0, 0), bubble(SCALE, 6 * SCALE, 0)];
    let mut edges2 = vec![Edge::new(0, 1)];
    forcelayout(&mut bubbles2, &mut edges2, &params);
    assert_eq!(edges2[0].pull_force, 6 * SCALE);
    // double the separation, double the pull
    assert_eq!(edges2[0].pull_force, 2 * edges[0].pull_force);
}

#[test]
fn edge_caches_follow_endpoints() {
    let params = SimParams::new(SCALE, SCALE, 10_000, 900_000);
    let mut bubbles = vec![bubble(SCALE, 0, 0), bubble(SCALE, 3 * SCALE, 0)];
    let mut edges = vec![Edge::new(0, 1)];
    forcelayout(&mut bubbles, &mut edges, &params);
    assert_eq!(edges[0].position_from.x, bubbles[0].position.x);
    assert_eq!(edges[0].position_from.y, bubbles[0].position.y);
    assert_eq!(edges[0].position_to.x, bubbles[1].position.x);
    assert_eq!(edges[0].position_to.y, bubbles[1].position.y);
    assert_eq!(bubbles[0].position.x, 288);
    assert_eq!(bubbles[1].position.x, 2_999_712);
}

#[test]
fn damping_strictly_reduces_speed() {
    let params = SimParams::default();
    let mut bubbles = vec![bubble(SCALE, 0, 0)];
    bubbles[0].v = vec2(10 * SCALE, 5 * SCALE);
    let mut edges: Vec<Edge> = vec![];
    let mut last = speed2(&bubbles[0].v);
    for _ in 0..10 {
        forcelayout(&mut bubbles, &mut edges, &params);
        let now = speed2(&bubbles[0].v);
        assert!(now < last, "speed must strictly decay");
        last = now;
    }
    assert_eq!(bubbles[0].v.x, 3_486_783);
}

#[test]
fn self_loop_edge_is_harmless() {
    let params = SimParams::default();
    let mut bubbles = vec![bubble(SCALE, 2 * SCALE, SCALE)];
    let mut edges = vec![Edge::new(0, 0)];
    forcelayout(&mut bubbles, &mut edges, &params);
    assert_eq!(edges[0].pull_force, 0);
    assert_eq!(bubbles[0].position.x, 2 * SCALE);
    assert_eq!(bubbles[0].position.y, SCALE);
}

#[test]
fn coincident_bubbles_skip_repulsion() {
    let params = SimParams::default();
    let mut bubbles = vec![bubble(SCALE, 7 * SCALE, 0), bubble(SCALE, 7 * SCALE, 0)];
    let mut edges: Vec<Edge> = vec![];
    forcelayout(&mut bubbles, &mut edges, &params);
    // the zero-distance pair contributes no force at all
    assert_eq!(bubbles[0].position.x, 7 * SCALE);
    assert_eq!(bubbles[1].position.x, 7 * SCALE);
    assert_eq!(bubbles[0].a.x, 0);
    assert_eq!(bubbles[1].a.x, 0);
}

fn sample_state() -> (Vec<Bubble>, Vec<Edge>) {
    let bubbles = vec![
        bubble(SCALE, -4 * SCALE, 2 * SCALE),
        bubble(2 * SCALE, 3 * SCALE, -SCALE),
        bubble(5 * SCALE, 0, 6 * SCALE),
        bubble(3 * SCALE, -2 * SCALE, -5 * SCALE),
    ];
    let edges = vec![Edge::new(0, 1), Edge::new(0, 2), Edge::new(3, 1)];
    (bubbles, edges)
}

#[test]
fn backends_agree_exactly() {
    let params = SimParams::default();
    let (bubbles, edges) = sample_state();
    let mut seq = Orchestrator::new(bubbles.clone(), edges.clone(), params, Backend::Sequential);
    let mut par = Orchestrator::new(bubbles, edges, params, Backend::Parallel);
    for _ in 0..8 {
        seq.tick();
        par.tick();
        let sb = seq.snapshot_bubbles();
        let pb = par.snapshot_bubbles();
        assert_eq!(sb.len(), pb.len());
        for (a, b) in sb.iter().zip(pb.iter()) {
            assert_eq!(a.position.x, b.position.x);
            assert_eq!(a.position.y, b.position.y);
            assert_eq!(a.v.x, b.v.x);
            assert_eq!(a.v.y, b.v.y);
            assert_eq!(a.a.x, b.a.x);
            assert_eq!(a.a.y, b.a.y);
        }
        let se = seq.snapshot_edges();
        let pe = par.snapshot_edges();
        assert_eq!(se.len(), pe.len());
        for (a, b) in se.iter().zip(pe.iter()) {
            assert_eq!(a.pull_force, b.pull_force);
            assert_eq!(a.position_from.x, b.position_from.x);
            assert_eq!(a.position_to.x, b.position_to.x);
        }
    }
}

#[test]
fn topology_change_rebuilds_device() {
    let params = SimParams::default();
    let (bubbles, edges) = sample_state();
    let mut seq = Orchestrator::new(bubbles.clone(), edges.clone(), params, Backend::Sequential);
    let mut par = Orchestrator::new(bubbles, edges, params, Backend::Parallel);
    seq.tick();
    par.tick();
    // grow the topology between steps; the parallel engine must rebuild
    seq.add_bubble(bubble(2 * SCALE, 8 * SCALE, 8 * SCALE));
    par.add_bubble(bubble(2 * SCALE, 8 * SCALE, 8 * SCALE));
    seq.add_edge(4, 2);
    par.add_edge(4, 2);
    for _ in 0..3 {
        seq.tick();
        par.tick();
    }
    let sb = seq.snapshot_bubbles();
    let pb = par.snapshot_bubbles();
    assert_eq!(sb.len(), 5);
    for (a, b) in sb.iter().zip(pb.iter()) {
        assert_eq!(a.position.x, b.position.x);
        assert_eq!(a.position.y, b.position.y);
        assert_eq!(a.v.x, b.v.x);
        assert_eq!(a.v.y, b.v.y);
    }
}

#[test]
fn physics_accessors_read_and_write_state() {
    let mut b = bubble(4 * SCALE, SCALE, -SCALE);
    assert_eq!(b.get_m(), 4 * SCALE);
    assert_eq!(b.get_p().x, SCALE);
    assert_eq!(b.get_v().x, 0);
    b.set_v(&vec2(7, 8));
    b.set_p(&vec2(-3, 4));
    b.set_a(&vec2(1, 2));
    assert_eq!(b.get_v().y, 8);
    assert_eq!(b.get_p().x, -3);
    assert_eq!(b.get_a().y, 2);
    assert_eq!(b.get_m(), 4 * SCALE);
}

#[test]
fn staged_pipeline_matches_sequential_engine() {
    let params = SimParams::default();
    let (mut bubbles, mut edges) = sample_state();
    let mut device = forcelayout::gpu_forcelayout::create_forcelayout_instance(
        &bubbles,
        &edges,
        params,
    );
    let result = device.compute();
    forcelayout(&mut bubbles, &mut edges, &params);
    assert_eq!(result.len(), bubbles.len());
    for (ent, b) in result.iter().zip(bubbles.iter()) {
        assert_eq!(ent.m, b.size);
        assert_eq!(ent.p, [b.position.x, b.position.y]);
        assert_eq!(ent.v, [b.v.x, b.v.y]);
        assert_eq!(ent.a, [b.a.x, b.a.y]);
    }
}
