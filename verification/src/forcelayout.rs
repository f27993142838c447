//! The sequential engine: one force-layout step over the bubble and edge
//! arrays, in place.
//!
//! A step is specified as three phases over the ghost node states — reset
//! plus pairwise repulsion, per-edge Hookean pull, damped integration —
//! followed by a refresh of every edge's cached endpoint positions. The
//! staged engine in [`crate::gpu_forcelayout`] is proved against the same
//! phase functions, which makes the two backends bit-for-bit equal.

use vstd::prelude::*;
use vstd::pervasive::VecAdditionalExecFns;
use crate::bubble::Bubble;
use crate::edge::Edge;
use crate::edge::EdgeState;
use crate::fixed::fp_mul;
use crate::math::V2;
use crate::math::v2_in_range;
use crate::math::vadd;
use crate::math::vdivs;
use crate::math::vneg;
use crate::math::vscale;
use crate::math::vzero;
use crate::physics::NodeState;
use crate::physics::SimParams;
use crate::physics::integrate_node;
use crate::physics::lemma_repulsion_antisymmetric;
use crate::physics::pull_magnitude;
use crate::physics::pull_vector;
use crate::physics::repulsion_force;
use crate::physics::repulsion_force_between;

verus! {

/// Ghost node states of a bubble sequence.
pub open spec fn nodes_view(bs: Seq<Bubble>) -> Seq<NodeState> {
    Seq::new(bs.len(), |i: int| bs[i]@)
}

/// Ghost edge states of an edge sequence.
pub open spec fn edges_view(es: Seq<Edge>) -> Seq<EdgeState> {
    Seq::new(es.len(), |i: int| es[i]@)
}

/// Every node's mass is positive (an invariant of the data model).
pub open spec fn masses_ok(ns: Seq<NodeState>) -> bool {
    forall|i: int| 0 <= i < ns.len() ==> (#[trigger] ns[i]).m > 0
}

/// Every edge's endpoints are valid node indices.
pub open spec fn edges_ok(es: Seq<EdgeState>, n: nat) -> bool {
    forall|i: int|
        0 <= i < es.len() ==> 0 <= (#[trigger] es[i]).from < n && 0 <= es[i].to < n
}

/// Phase zero of a step: every acceleration reset to the zero vector.
pub open spec fn reset_accels(ns: Seq<NodeState>) -> Seq<NodeState> {
    Seq::new(ns.len(), |i: int| NodeState { m: ns[i].m, p: ns[i].p, v: ns[i].v, a: vzero() })
}

/// Acceleration contribution to node `i` from its repulsion against node
/// `j`: the force on `i`, divided by `i`'s own mass.
pub open spec fn repulsion_contrib(ns: Seq<NodeState>, k: int, i: int, j: int) -> V2 {
    vdivs(repulsion_force(k, ns[i].m, ns[j].m, ns[i].p, ns[j].p), ns[i].m)
}

/// Repulsion acceleration accumulated on node `i` from partners `0..upto`
/// (skipping `i` itself), in ascending partner order, starting from zero.
pub open spec fn repulsion_accum(ns: Seq<NodeState>, k: int, i: int, upto: int) -> V2
    decreases upto,
{
    if upto <= 0 {
        vzero()
    } else if upto - 1 == i {
        repulsion_accum(ns, k, i, upto - 1)
    } else {
        vadd(repulsion_accum(ns, k, i, upto - 1), repulsion_contrib(ns, k, i, upto - 1))
    }
}

/// Repulsion phase: every node's acceleration becomes its accumulated
/// repulsion against all other nodes.
pub open spec fn phase_repulsion(ns: Seq<NodeState>, k: int) -> Seq<NodeState> {
    Seq::new(
        ns.len(),
        |i: int|
            NodeState {
                m: ns[i].m,
                p: ns[i].p,
                v: ns[i].v,
                a: repulsion_accum(ns, k, i, ns.len() as int),
            },
    )
}

/// One edge's pull applied to the node states: the Hookean pull vector,
/// mass-weighted, accumulated positively into `from` and negatively into
/// `to` (in that order, which matters when the two coincide).
pub open spec fn apply_pull(ns: Seq<NodeState>, k: int, from: int, to: int) -> Seq<NodeState> {
    let pv = pull_vector(k, ns[from].p, ns[to].p);
    let nf = ns[from];
    let ns1 = ns.update(
        from,
        NodeState { m: nf.m, p: nf.p, v: nf.v, a: vadd(nf.a, vdivs(pv, nf.m)) },
    );
    let nt = ns1[to];
    ns1.update(to, NodeState { m: nt.m, p: nt.p, v: nt.v, a: vadd(nt.a, vdivs(vneg(pv), nt.m)) })
}

/// Pull phase: the edges `0..upto` applied in order.
pub open spec fn phase_pull(ns: Seq<NodeState>, es: Seq<EdgeState>, k: int, upto: int) -> Seq<
    NodeState,
>
    decreases upto,
{
    if upto <= 0 {
        ns
    } else {
        apply_pull(phase_pull(ns, es, k, upto - 1), k, es[upto - 1].from, es[upto - 1].to)
    }
}

/// Integration phase: every node integrated independently.
pub open spec fn phase_integrate(ns: Seq<NodeState>, dt: int, damping: int) -> Seq<NodeState> {
    Seq::new(ns.len(), |i: int| integrate_node(ns[i], dt, damping))
}

/// One full step of the node states: reset, repulsion, pull, integration.
pub open spec fn step_nodes(ns: Seq<NodeState>, es: Seq<EdgeState>, prm: SimParams) -> Seq<
    NodeState,
> {
    phase_integrate(
        phase_pull(
            phase_repulsion(reset_accels(ns), prm.k_rep as int),
            es,
            prm.k_pull as int,
            es.len() as int,
        ),
        prm.dt as int,
        prm.damping as int,
    )
}

/// One edge after a step: pull force recomputed from the pre-step
/// positions, endpoint caches refreshed from the stepped positions.
pub open spec fn step_edge(
    ns: Seq<NodeState>,
    es: Seq<EdgeState>,
    prm: SimParams,
    i: int,
) -> EdgeState {
    let ns1 = step_nodes(ns, es, prm);
    EdgeState {
        from: es[i].from,
        to: es[i].to,
        pull_force: pull_magnitude(prm.k_pull as int, ns[es[i].from].p, ns[es[i].to].p),
        position_from: ns1[es[i].from].p,
        position_to: ns1[es[i].to].p,
    }
}

/// Reset every bubble's acceleration to the zero vector.
fn reset_accelerations(bubbles: &mut Vec<Bubble>)
    ensures
        nodes_view(final(bubbles)@) == reset_accels(nodes_view(old(bubbles)@)),
{
    let ghost ns0 = nodes_view(bubbles@);
    let n = bubbles.len();
    let mut i: usize = 0;
    while i < n
        invariant
            i <= n,
            n == bubbles@.len(),
            ns0.len() == n,
            forall|v: int| 0 <= v < i ==> (#[trigger] bubbles@[v])@ == reset_accels(ns0)[v],
            forall|v: int| i <= v < n ==> (#[trigger] bubbles@[v])@ == ns0[v],
        decreases n - i,
    {
        let mut b = bubbles[i];
        b.a = crate::math::Vector2::new();
        bubbles.set(i, b);
        i += 1;
    }
    proof {
        assert(nodes_view(bubbles@) =~= reset_accels(ns0));
    }
}

/// Accumulate the pairwise repulsion into every bubble's acceleration,
/// which must be zero on entry. Each unordered pair's force is computed
/// once and applied to the two bubbles with opposite signs.
fn accumulate_repulsion(bubbles: &mut Vec<Bubble>, k: i64)
    requires
        k >= 0,
        masses_ok(nodes_view(old(bubbles)@)),
        forall|v: int|
            0 <= v < old(bubbles)@.len() ==> (#[trigger] old(bubbles)@[v])@.a == vzero(),
    ensures
        nodes_view(final(bubbles)@) == phase_repulsion(nodes_view(old(bubbles)@), k as int),
{
    let ghost ns0 = nodes_view(bubbles@);
    let ghost ki = k as int;
    let n = bubbles.len();
    let mut i: usize = 0;
    while i < n
        invariant
            i <= n,
            n == bubbles@.len(),
            ns0.len() == n,
            ki == k as int,
            k >= 0,
            masses_ok(ns0),
            forall|v: int| 0 <= v < n ==> {
                let b = (#[trigger] bubbles@[v])@;
                b.m == ns0[v].m && b.p == ns0[v].p && b.v == ns0[v].v
            },
            forall|v: int|
                0 <= v < i ==> (#[trigger] bubbles@[v])@.a == repulsion_accum(
                    ns0,
                    ki,
                    v,
                    n as int,
                ),
            forall|v: int|
                i <= v < n ==> (#[trigger] bubbles@[v])@.a == repulsion_accum(
                    ns0,
                    ki,
                    v,
                    i as int,
                ),
        decreases n - i,
    {
        let mut j: usize = i + 1;
        proof {
            assert(repulsion_accum(ns0, ki, i as int, i as int + 1) == repulsion_accum(
                ns0,
                ki,
                i as int,
                i as int,
            ));
        }
        while j < n
            invariant
                i < n,
                i + 1 <= j <= n,
                n == bubbles@.len(),
                ns0.len() == n,
                ki == k as int,
                k >= 0,
                masses_ok(ns0),
                forall|v: int| 0 <= v < n ==> {
                    let b = (#[trigger] bubbles@[v])@;
                    b.m == ns0[v].m && b.p == ns0[v].p && b.v == ns0[v].v
                },
                forall|v: int|
                    0 <= v < i ==> (#[trigger] bubbles@[v])@.a == repulsion_accum(
                        ns0,
                        ki,
                        v,
                        n as int,
                    ),
                bubbles@[i as int]@.a == repulsion_accum(ns0, ki, i as int, j as int),
                forall|v: int|
                    i < v < j ==> (#[trigger] bubbles@[v])@.a == repulsion_accum(
                        ns0,
                        ki,
                        v,
                        i as int + 1,
                    ),
                forall|v: int|
                    j <= v < n ==> (#[trigger] bubbles@[v])@.a == repulsion_accum(
                        ns0,
                        ki,
                        v,
                        i as int,
                    ),
            decreases n - j,
        {
            let ghost ii = i as int;
            let ghost jj = j as int;
            let bi = bubbles[i];
            let bj = bubbles[j];
            proof {
                assert(ns0[ii].m > 0);
                assert(ns0[jj].m > 0);
                crate::physics::lemma_repulsion_force_in_range(
                    ki,
                    bi.size as int,
                    bj.size as int,
                    bi.position@,
                    bj.position@,
                );
            }
            let f = repulsion_force_between(k, bi.size, bj.size, &bi.position, &bj.position);
            let ca = f.div_s(bi.size);
            let mut bi2 = bi;
            bi2.a = bi2.a.add(&ca);
            bubbles.set(i, bi2);
            let fneg = f.neg();
            let cb = fneg.div_s(bj.size);
            let mut bj2 = bj;
            bj2.a = bj2.a.add(&cb);
            bubbles.set(j, bj2);
            proof {
                assert(f@ == repulsion_force(ki, ns0[ii].m, ns0[jj].m, ns0[ii].p, ns0[jj].p));
                assert(repulsion_accum(ns0, ki, ii, jj + 1) == vadd(
                    repulsion_accum(ns0, ki, ii, jj),
                    repulsion_contrib(ns0, ki, ii, jj),
                ));
                assert(repulsion_accum(ns0, ki, jj, ii + 1) == vadd(
                    repulsion_accum(ns0, ki, jj, ii),
                    repulsion_contrib(ns0, ki, jj, ii),
                ));
                lemma_repulsion_antisymmetric(ki, ns0[jj].m, ns0[ii].m, ns0[jj].p, ns0[ii].p);
                assert(repulsion_force(ki, ns0[jj].m, ns0[ii].m, ns0[jj].p, ns0[ii].p) == vneg(
                    f@,
                ));
                assert(bubbles@[ii]@.a == repulsion_accum(ns0, ki, ii, jj + 1));
                assert(bubbles@[jj]@.a == repulsion_accum(ns0, ki, jj, ii + 1));
            }
            j += 1;
        }
        i += 1;
    }
    proof {
        assert(nodes_view(bubbles@) =~= phase_repulsion(ns0, ki));
    }
}

/// Apply every edge's Hookean pull to the bubbles' accelerations, in edge
/// order, and record each edge's pull-force magnitude.
fn apply_pulls(bubbles: &mut Vec<Bubble>, edges: &mut Vec<Edge>, k: i64)
    requires
        k >= 0,
        masses_ok(nodes_view(old(bubbles)@)),
        edges_ok(edges_view(old(edges)@), old(bubbles)@.len()),
    ensures
        nodes_view(final(bubbles)@) == phase_pull(
            nodes_view(old(bubbles)@),
            edges_view(old(edges)@),
            k as int,
            old(edges)@.len() as int,
        ),
        final(edges)@.len() == old(edges)@.len(),
        forall|e: int|
            0 <= e < old(edges)@.len() ==> {
                let ed = (#[trigger] final(edges)@[e])@;
                let ed0 = old(edges)@[e]@;
                &&& ed.from == ed0.from
                &&& ed.to == ed0.to
                &&& ed.position_from == ed0.position_from
                &&& ed.position_to == ed0.position_to
                &&& ed.pull_force == pull_magnitude(
                    k as int,
                    nodes_view(old(bubbles)@)[ed0.from].p,
                    nodes_view(old(bubbles)@)[ed0.to].p,
                )
            },
{
    let ghost ns0 = nodes_view(bubbles@);
    let ghost es0 = edges_view(edges@);
    let ghost ki = k as int;
    let n = bubbles.len();
    let m = edges.len();
    let mut e: usize = 0;
    while e < m
        invariant
            e <= m,
            n == bubbles@.len(),
            m == edges@.len(),
            ns0.len() == n,
            es0.len() == m,
            ki == k as int,
            k >= 0,
            masses_ok(ns0),
            edges_ok(es0, n as nat),
            nodes_view(bubbles@) == phase_pull(ns0, es0, ki, e as int),
            forall|idx: int|
                e <= idx < m ==> (#[trigger] edges@[idx])@ == es0[idx],
            forall|idx: int|
                0 <= idx < e ==> {
                    let ed = (#[trigger] edges@[idx])@;
                    let ed0 = es0[idx];
                    &&& ed.from == ed0.from
                    &&& ed.to == ed0.to
                    &&& ed.position_from == ed0.position_from
                    &&& ed.position_to == ed0.position_to
                    &&& ed.pull_force == pull_magnitude(ki, ns0[ed0.from].p, ns0[ed0.to].p)
                },
        decreases m - e,
    {
        let ghost prev = phase_pull(ns0, es0, ki, e as int);
        proof {
            lemma_phase_pull_keeps_mpv(ns0, es0, ki, e as int);
            assert(es0[e as int].from < n && es0[e as int].to < n);
        }
        let ed = edges[e];
        let bf = bubbles[ed.from];
        let bt = bubbles[ed.to];
        let d = bt.position.sub(&bf.position);
        let mut ed2 = ed;
        ed2.pull_force = fp_mul(k, d.len());
        edges.set(e, ed2);
        let pv = d.mul_s(k);
        proof {
            crate::math::lemma_vscale_in_range(d@, ki);
            assert(prev[ed.from as int].m == ns0[ed.from as int].m);
            assert(ns0[ed.from as int].m > 0);
            assert(ns0[ed.to as int].m > 0);
        }
        let mut bf2 = bubbles[ed.from];
        bf2.a = bf2.a.add(&pv.div_s(bf2.size));
        bubbles.set(ed.from, bf2);
        proof {
            let from = ed.from as int;
            let to = ed.to as int;
            if to == from {
                assert(bubbles@[to]@.m == bf2.size as int);
            } else {
                assert(bubbles@[to]@.m == prev[to].m);
            }
            assert(bubbles@[to]@.m > 0);
            assert(v2_in_range(pv@));
        }
        let mut bt2 = bubbles[ed.to];
        bt2.a = bt2.a.add(&pv.neg().div_s(bt2.size));
        bubbles.set(ed.to, bt2);
        proof {
            let from = ed.from as int;
            let to = ed.to as int;
            assert(pv@ == pull_vector(ki, prev[from].p, prev[to].p));
            assert(nodes_view(bubbles@) =~= apply_pull(prev, ki, from, to));
            assert(phase_pull(ns0, es0, ki, e as int + 1) == apply_pull(
                prev,
                ki,
                es0[e as int].from,
                es0[e as int].to,
            ));
            assert(ed2@.pull_force == pull_magnitude(ki, ns0[from].p, ns0[to].p));
        }
        e += 1;
    }
}

/// Integrate every bubble independently: damp the velocity, add the
/// acceleration contribution, advance the position.
fn integrate_bubbles(bubbles: &mut Vec<Bubble>, dt: i64, damping: i64)
    ensures
        nodes_view(final(bubbles)@) == phase_integrate(
            nodes_view(old(bubbles)@),
            dt as int,
            damping as int,
        ),
{
    let ghost ns0 = nodes_view(bubbles@);
    let n = bubbles.len();
    let mut i: usize = 0;
    while i < n
        invariant
            i <= n,
            n == bubbles@.len(),
            ns0.len() == n,
            forall|v: int|
                0 <= v < i ==> (#[trigger] bubbles@[v])@ == integrate_node(
                    ns0[v],
                    dt as int,
                    damping as int,
                ),
            forall|v: int| i <= v < n ==> (#[trigger] bubbles@[v])@ == ns0[v],
        decreases n - i,
    {
        let b = bubbles[i];
        let damped = b.v.mul_s(damping);
        let adt = b.a.mul_s(dt);
        let v1 = damped.add(&adt);
        let p1 = b.position.add(&v1.mul_s(dt));
        let mut b2 = b;
        b2.v = v1;
        b2.position = p1;
        bubbles.set(i, b2);
        i += 1;
    }
    proof {
        assert(nodes_view(bubbles@) =~= phase_integrate(ns0, dt as int, damping as int));
    }
}

/// Refresh every edge's cached endpoint positions from the bubbles.
pub(crate) fn refresh_edge_caches(bubbles: &Vec<Bubble>, edges: &mut Vec<Edge>)
    requires
        edges_ok(edges_view(old(edges)@), bubbles@.len()),
    ensures
        final(edges)@.len() == old(edges)@.len(),
        forall|e: int|
            0 <= e < old(edges)@.len() ==> {
                let ed = (#[trigger] final(edges)@[e])@;
                let ed0 = old(edges)@[e]@;
                &&& ed.from == ed0.from
                &&& ed.to == ed0.to
                &&& ed.pull_force == ed0.pull_force
                &&& ed.position_from == bubbles@[ed0.from]@.p
                &&& ed.position_to == bubbles@[ed0.to]@.p
            },
{
    let ghost es0 = edges_view(edges@);
    let m = edges.len();
    let mut e: usize = 0;
    while e < m
        invariant
            e <= m,
            m == edges@.len(),
            es0.len() == m,
            edges_ok(es0, bubbles@.len()),
            forall|idx: int| e <= idx < m ==> (#[trigger] edges@[idx])@ == es0[idx],
            forall|idx: int|
                0 <= idx < e ==> {
                    let ed = (#[trigger] edges@[idx])@;
                    let ed0 = es0[idx];
                    &&& ed.from == ed0.from
                    &&& ed.to == ed0.to
                    &&& ed.pull_force == ed0.pull_force
                    &&& ed.position_from == bubbles@[ed0.from]@.p
                    &&& ed.position_to == bubbles@[ed0.to]@.p
                },
        decreases m - e,
    {
        proof {
            assert(es0[e as int].from < bubbles@.len() && es0[e as int].to < bubbles@.len());
        }
        let ed = edges[e];
        let mut ed2 = ed;
        ed2.position_from = bubbles[ed.from].position;
        ed2.position_to = bubbles[ed.to].position;
        edges.set(e, ed2);
        e += 1;
    }
}

/// Advance the system by one fixed time step, in place: reset every
/// acceleration, accumulate the pairwise inverse-square repulsion, apply
/// each edge's Hookean pull (recording its magnitude on the edge), damp and
/// integrate every bubble, and refresh the edges' cached endpoint
/// positions.
pub fn forcelayout(bubbles: &mut Vec<Bubble>, edges: &mut Vec<Edge>, prm: &SimParams)
    requires
        prm.wf(),
        masses_ok(nodes_view(old(bubbles)@)),
        edges_ok(edges_view(old(edges)@), old(bubbles)@.len()),
    ensures
        final(bubbles)@.len() == old(bubbles)@.len(),
        final(edges)@.len() == old(edges)@.len(),
        nodes_view(final(bubbles)@) == step_nodes(
            nodes_view(old(bubbles)@),
            edges_view(old(edges)@),
            *prm,
        ),
        forall|e: int|
            0 <= e < old(edges)@.len() ==> (#[trigger] final(edges)@[e])@ == step_edge(
                nodes_view(old(bubbles)@),
                edges_view(old(edges)@),
                *prm,
                e,
            ),
{
    let ghost ns_orig = nodes_view(bubbles@);
    let ghost es0 = edges_view(edges@);
    let ghost n = bubbles@.len();
    proof {
        assert(ns_orig == nodes_view(old(bubbles)@));
        assert(masses_ok(ns_orig));
    }
    reset_accelerations(bubbles);
    let ghost ns_r = reset_accels(ns_orig);
    proof {
        assert(nodes_view(bubbles@) == ns_r);
        assert(ns_r.len() == n);
        assert(nodes_view(bubbles@).len() == bubbles@.len());
        assert(bubbles@.len() == n);
        assert forall|v: int| 0 <= v < n implies (#[trigger] nodes_view(bubbles@)[v]).m > 0 by {
            assert(ns_orig[v].m > 0);
            assert(reset_accels(ns_orig)[v].m == ns_orig[v].m);
        }
        assert forall|v: int|
            0 <= v < n implies (#[trigger] bubbles@[v])@.a == vzero() by {
            assert(reset_accels(ns_orig)[v].a == vzero());
            assert(bubbles@[v]@ == nodes_view(bubbles@)[v]);
        }
        assert(masses_ok(nodes_view(bubbles@)));
    }
    accumulate_repulsion(bubbles, prm.k_rep);
    let ghost ns_a = phase_repulsion(ns_r, prm.k_rep as int);
    proof {
        assert(nodes_view(bubbles@) == ns_a);
        assert(ns_a.len() == ns_r.len());
        assert(ns_r.len() == n);
        assert(nodes_view(bubbles@).len() == bubbles@.len());
        assert(bubbles@.len() == n);
        assert forall|v: int| 0 <= v < n implies (#[trigger] nodes_view(bubbles@)[v]).m > 0 by {
            assert(phase_repulsion(ns_r, prm.k_rep as int)[v].m == ns_r[v].m);
            assert(reset_accels(ns_orig)[v].m == ns_orig[v].m);
            assert(ns_orig[v].m > 0);
        }
        assert(masses_ok(nodes_view(bubbles@)));
        assert(edges_view(edges@) =~= es0);
    }
    apply_pulls(bubbles, edges, prm.k_pull);
    let ghost ns_b = phase_pull(ns_a, es0, prm.k_pull as int, es0.len() as int);
    integrate_bubbles(bubbles, prm.dt, prm.damping);
    let ghost ns_c = phase_integrate(ns_b, prm.dt as int, prm.damping as int);
    proof {
        lemma_phase_pull_keeps_mpv(ns_a, es0, prm.k_pull as int, es0.len() as int);
        assert(nodes_view(bubbles@) == ns_c);
        assert(ns_c.len() == ns_b.len());
        assert(ns_b.len() == ns_a.len());
        assert(ns_a.len() == n);
        assert(nodes_view(bubbles@).len() == bubbles@.len());
        assert(bubbles@.len() == n);
        assert(edges@.len() == es0.len());
        assert forall|e: int|
            0 <= e < es0.len() implies 0 <= (#[trigger] edges_view(edges@)[e]).from < n && 0 <= edges_view(
            edges@,
        )[e].to < n by {
            assert(edges@[e]@.from == es0[e].from && edges@[e]@.to == es0[e].to);
        }
        assert(edges_ok(edges_view(edges@), n));
    }
    let ghost es_mid = edges_view(edges@);
    refresh_edge_caches(bubbles, edges);
    proof {
        assert(bubbles@.len() == n);
        assert(edges@.len() == es0.len());
        assert(ns_a.len() == n && ns_b.len() == n && ns_c.len() == n && ns_r.len() == n);
        assert(nodes_view(bubbles@) == step_nodes(ns_orig, es0, *prm));
        assert forall|e: int|
            0 <= e < es0.len() implies (#[trigger] edges@[e])@ == step_edge(
            ns_orig,
            es0,
            *prm,
            e,
        ) by {
            let ed = edges@[e]@;
            let ed0 = es_mid[e];
            let f = es0[e].from;
            let t = es0[e].to;
            assert(0 <= f < n && 0 <= t < n);
            assert(ed0.from == f && ed0.to == t);
            assert(ed0.pull_force == pull_magnitude(prm.k_pull as int, ns_a[f].p, ns_a[t].p));
            assert(phase_repulsion(ns_r, prm.k_rep as int)[f].p == ns_r[f].p);
            assert(phase_repulsion(ns_r, prm.k_rep as int)[t].p == ns_r[t].p);
            assert(reset_accels(ns_orig)[f].p == ns_orig[f].p);
            assert(reset_accels(ns_orig)[t].p == ns_orig[t].p);
            assert(ns_a[f].p == ns_orig[f].p);
            assert(ns_a[t].p == ns_orig[t].p);
            assert(ed.position_from == bubbles@[f]@.p);
            assert(ed.position_to == bubbles@[t]@.p);
            assert(bubbles@[f]@.p == nodes_view(bubbles@)[f].p);
            assert(bubbles@[t]@.p == nodes_view(bubbles@)[t].p);
        }
    }
}

/// A whole step never changes a node's mass.
pub proof fn lemma_step_preserves_masses(ns: Seq<NodeState>, es: Seq<EdgeState>, prm: SimParams)
    requires
        edges_ok(es, ns.len()),
    ensures
        step_nodes(ns, es, prm).len() == ns.len(),
        forall|v: int|
            0 <= v < ns.len() ==> (#[trigger] step_nodes(ns, es, prm)[v]).m == ns[v].m,
{
    let ns_r = reset_accels(ns);
    let ns_a = phase_repulsion(ns_r, prm.k_rep as int);
    let ns_b = phase_pull(ns_a, es, prm.k_pull as int, es.len() as int);
    lemma_phase_pull_keeps_mpv(ns_a, es, prm.k_pull as int, es.len() as int);
    assert forall|v: int|
        0 <= v < ns.len() implies (#[trigger] step_nodes(ns, es, prm)[v]).m == ns[v].m by {
        assert(step_nodes(ns, es, prm)[v] == integrate_node(
            ns_b[v],
            prm.dt as int,
            prm.damping as int,
        ));
        assert(ns_b[v].m == ns_a[v].m);
        assert(phase_repulsion(ns_r, prm.k_rep as int)[v].m == ns_r[v].m);
        assert(reset_accels(ns)[v].m == ns[v].m);
    }
}

/// The node states after `steps` whole steps.
pub open spec fn run_steps(
    ns: Seq<NodeState>,
    es: Seq<EdgeState>,
    prm: SimParams,
    steps: nat,
) -> Seq<NodeState>
    decreases steps,
{
    if steps == 0 {
        ns
    } else {
        step_nodes(run_steps(ns, es, prm, (steps - 1) as nat), es, prm)
    }
}

/// Adding the zero vector to an in-range vector changes nothing.
proof fn lemma_vadd_zero_left(x: V2)
    requires
        v2_in_range(x),
    ensures
        vadd(vzero(), x) == x,
{
}

/// Integration is odd: mirroring a node's state mirrors its next state.
proof fn lemma_integrate_neg(n: NodeState, dt: int, damping: int)
    ensures
        integrate_node(NodeState { m: n.m, p: vneg(n.p), v: vneg(n.v), a: vneg(n.a) }, dt, damping)
            == (NodeState {
            m: n.m,
            p: vneg(integrate_node(n, dt, damping).p),
            v: vneg(integrate_node(n, dt, damping).v),
            a: vneg(n.a),
        }),
{
    let v1 = vadd(vscale(n.v, damping), vscale(n.a, dt));
    crate::math::lemma_vscale_neg(n.v, damping);
    crate::math::lemma_vscale_neg(n.a, dt);
    crate::math::lemma_vadd_neg(vscale(n.v, damping), vscale(n.a, dt));
    crate::math::lemma_vscale_neg(v1, dt);
    crate::math::lemma_vadd_neg(n.p, vscale(v1, dt));
}

/// Two equal-mass nodes placed and moving symmetrically about the origin.
pub open spec fn mirrored_pair(ns: Seq<NodeState>) -> bool {
    &&& ns.len() == 2
    &&& ns[1].m == ns[0].m
    &&& ns[1].p == vneg(ns[0].p)
    &&& ns[1].v == vneg(ns[0].v)
}

/// Symmetry: a mirrored equal-mass pair with no edges stays mirrored
/// through one whole step — the two positions remain symmetric about the
/// origin.
pub proof fn lemma_symmetric_pair_step(ns: Seq<NodeState>, es: Seq<EdgeState>, prm: SimParams)
    requires
        mirrored_pair(ns),
        es.len() == 0,
    ensures
        mirrored_pair(step_nodes(ns, es, prm)),
{
    let k = prm.k_rep as int;
    let ns_r = reset_accels(ns);
    let ns_a = phase_repulsion(ns_r, k);
    let ns_b = phase_pull(ns_a, es, prm.k_pull as int, 0);
    assert(ns_b == ns_a);
    let m = ns[0].m;
    // the two accumulated repulsion accelerations are exact negatives
    let c0 = repulsion_contrib(ns_r, k, 0, 1);
    let c1 = repulsion_contrib(ns_r, k, 1, 0);
    assert(repulsion_accum(ns_r, k, 0, 2) == vadd(repulsion_accum(ns_r, k, 0, 1), c0));
    assert(repulsion_accum(ns_r, k, 0, 1) == repulsion_accum(ns_r, k, 0, 0));
    assert(repulsion_accum(ns_r, k, 0, 0) == vzero());
    assert(repulsion_accum(ns_r, k, 1, 2) == repulsion_accum(ns_r, k, 1, 1));
    assert(repulsion_accum(ns_r, k, 1, 1) == vadd(repulsion_accum(ns_r, k, 1, 0), c1));
    assert(repulsion_accum(ns_r, k, 1, 0) == vzero());
    lemma_repulsion_antisymmetric(k, ns_r[1].m, ns_r[0].m, ns_r[1].p, ns_r[0].p);
    assert(repulsion_force(k, ns_r[1].m, ns_r[0].m, ns_r[1].p, ns_r[0].p) == vneg(
        repulsion_force(k, ns_r[0].m, ns_r[1].m, ns_r[0].p, ns_r[1].p),
    ));
    crate::math::lemma_vdivs_neg(
        repulsion_force(k, ns_r[0].m, ns_r[1].m, ns_r[0].p, ns_r[1].p),
        m,
    );
    assert(c1 == vneg(c0));
    assert(v2_in_range(c0)) by {
        crate::physics::lemma_repulsion_force_in_range(k, ns_r[0].m, ns_r[1].m, ns_r[0].p, ns_r[1].p);
    }
    lemma_vadd_zero_left(c0);
    assert(v2_in_range(vneg(c0)));
    lemma_vadd_zero_left(vneg(c0));
    assert(ns_a[0].a == c0);
    assert(ns_a[1].a == vneg(c0));
    // integration preserves the mirror
    assert(ns_a[1].m == ns_a[0].m && ns_a[1].p == vneg(ns_a[0].p) && ns_a[1].v == vneg(ns_a[0].v));
    lemma_integrate_neg(ns_a[0], prm.dt as int, prm.damping as int);
    assert(NodeState { m: ns_a[0].m, p: vneg(ns_a[0].p), v: vneg(ns_a[0].v), a: vneg(ns_a[0].a) }
        == ns_a[1]);
    assert(step_nodes(ns, es, prm)[0] == integrate_node(ns_a[0], prm.dt as int, prm.damping as int));
    assert(step_nodes(ns, es, prm)[1] == integrate_node(ns_a[1], prm.dt as int, prm.damping as int));
}

/// Symmetry over any number of steps: a mirrored equal-mass pair with no
/// edges stays mirrored forever.
pub proof fn lemma_symmetric_pair_run(
    ns: Seq<NodeState>,
    es: Seq<EdgeState>,
    prm: SimParams,
    steps: nat,
)
    requires
        mirrored_pair(ns),
        es.len() == 0,
    ensures
        mirrored_pair(run_steps(ns, es, prm, steps)),
    decreases steps,
{
    if steps > 0 {
        lemma_symmetric_pair_run(ns, es, prm, (steps - 1) as nat);
        lemma_symmetric_pair_step(run_steps(ns, es, prm, (steps - 1) as nat), es, prm);
    }
}

/// Scaling the zero vector gives the zero vector.
proof fn lemma_vscale_zero(s: int)
    ensures
        vscale(vzero(), s) == vzero(),
{
    assert(0 * s == 0) by (nonlinear_arith);
    assert(crate::fixed::tdiv(0, crate::fixed::SCALE as int) == 0) by {
        vstd::arithmetic::div_mod::lemma_div_of0(crate::fixed::SCALE as int);
    }
}

/// Isolation: a single node with no edges never accelerates, and when it is
/// at rest its position never changes.
pub proof fn lemma_isolated_node_step(ns: Seq<NodeState>, es: Seq<EdgeState>, prm: SimParams)
    requires
        ns.len() == 1,
        es.len() == 0,
        v2_in_range(ns[0].p),
    ensures
        step_nodes(ns, es, prm)[0].a == vzero(),
        step_nodes(ns, es, prm)[0].m == ns[0].m,
        ns[0].v == vzero() ==> step_nodes(ns, es, prm)[0].p == ns[0].p,
        ns[0].v == vzero() ==> step_nodes(ns, es, prm)[0].v == vzero(),
{
    let ns_r = reset_accels(ns);
    let k = prm.k_rep as int;
    let ns_a = phase_repulsion(ns_r, k);
    assert(repulsion_accum(ns_r, k, 0, 1) == repulsion_accum(ns_r, k, 0, 0));
    assert(repulsion_accum(ns_r, k, 0, 0) == vzero());
    assert(ns_a[0].a == vzero());
    assert(phase_pull(ns_a, es, prm.k_pull as int, 0) == ns_a);
    lemma_vscale_zero(prm.damping as int);
    lemma_vscale_zero(prm.dt as int);
    if ns[0].v == vzero() {
        let v1 = vadd(vscale(ns_a[0].v, prm.damping as int), vscale(ns_a[0].a, prm.dt as int));
        assert(v1 == vadd(vzero(), vzero()));
        assert(v1 == vzero());
        lemma_vadd_zero_left(vzero());
        assert(step_nodes(ns, es, prm)[0].p == vadd(ns[0].p, vscale(v1, prm.dt as int)));
        assert(vscale(v1, prm.dt as int) == vzero());
        assert(vadd(ns[0].p, vzero()) == (V2 {
            x: crate::fixed::clip(ns[0].p.x),
            y: crate::fixed::clip(ns[0].p.y),
        }));
        crate::fixed::lemma_clip_id(ns[0].p.x);
        crate::fixed::lemma_clip_id(ns[0].p.y);
    }
}

/// Damping decay at the whole-step level: a lone moving node, subject to
/// no force at all, strictly loses speed on every step — no perpetual
/// motion.
pub proof fn lemma_isolated_node_decay(ns: Seq<NodeState>, es: Seq<EdgeState>, prm: SimParams)
    requires
        ns.len() == 1,
        es.len() == 0,
        prm.wf(),
        v2_in_range(ns[0].v),
        ns[0].v != vzero(),
    ensures
        crate::physics::speed2(step_nodes(ns, es, prm)[0].v) < crate::physics::speed2(ns[0].v),
{
    let ns_r = reset_accels(ns);
    let k = prm.k_rep as int;
    let ns_a = phase_repulsion(ns_r, k);
    assert(repulsion_accum(ns_r, k, 0, 1) == repulsion_accum(ns_r, k, 0, 0));
    assert(repulsion_accum(ns_r, k, 0, 0) == vzero());
    assert(ns_a[0].a == vzero());
    assert(ns_a[0].v == ns[0].v);
    assert(phase_pull(ns_a, es, prm.k_pull as int, 0) == ns_a);
    crate::physics::lemma_damping_decay(ns_a[0], prm.dt as int, prm.damping as int);
    assert(step_nodes(ns, es, prm)[0] == integrate_node(ns_a[0], prm.dt as int, prm.damping as int));
}

/// Isolation over any number of steps: a single resting node with no edges
/// keeps its position, stays at rest, and (after the first step) carries
/// zero acceleration.
pub proof fn lemma_isolated_node_run(
    ns: Seq<NodeState>,
    es: Seq<EdgeState>,
    prm: SimParams,
    steps: nat,
)
    requires
        ns.len() == 1,
        es.len() == 0,
        v2_in_range(ns[0].p),
        ns[0].v == vzero(),
    ensures
        run_steps(ns, es, prm, steps).len() == 1,
        run_steps(ns, es, prm, steps)[0].p == ns[0].p,
        run_steps(ns, es, prm, steps)[0].v == vzero(),
        run_steps(ns, es, prm, steps)[0].m == ns[0].m,
        steps > 0 ==> run_steps(ns, es, prm, steps)[0].a == vzero(),
    decreases steps,
{
    if steps > 0 {
        lemma_isolated_node_run(ns, es, prm, (steps - 1) as nat);
        let prev = run_steps(ns, es, prm, (steps - 1) as nat);
        lemma_isolated_node_step(prev, es, prm);
    }
}

/// The pull phase changes accelerations only.
pub proof fn lemma_phase_pull_keeps_mpv(ns: Seq<NodeState>, es: Seq<EdgeState>, k: int, upto: int)
    requires
        edges_ok(es, ns.len()),
        0 <= upto <= es.len(),
    ensures
        phase_pull(ns, es, k, upto).len() == ns.len(),
        forall|v: int|
            0 <= v < ns.len() ==> {
                let r = #[trigger] phase_pull(ns, es, k, upto)[v];
                r.m == ns[v].m && r.p == ns[v].p && r.v == ns[v].v
            },
    decreases upto,
{
    if upto > 0 {
        lemma_phase_pull_keeps_mpv(ns, es, k, upto - 1);
    }
}

} // verus!
