//! The parallel engine: packed device-style buffers and the three-stage
//! compute pipeline.
//!
//! The engine keeps the node and edge data in fixed-size packed records,
//! laid out as a device's storage buffers would be (16-byte-aligned field
//! groups, padding words with no semantic use), and advances one step as
//! three ordered stages over the node buffer: repulsion (one unit of work
//! per node), pull (one unit per edge), and integration (one unit per
//! node). Each stage commits fully before the next observes the buffer —
//! here by sequential composition, standing for the pipeline barrier — and
//! after the last stage the node buffer is copied into a staging buffer
//! and read back. Every stage is proved against the same phase functions
//! as the sequential engine, so the two backends agree bit for bit; see
//! [`lemma_cross_backend_equivalence`].

use vstd::prelude::*;
use vstd::pervasive::VecAdditionalExecFns;
use crate::bubble::Bubble;
use crate::edge::Edge;
use crate::edge::EdgeState;
use crate::forcelayout::edges_ok;
use crate::forcelayout::edges_view;
use crate::forcelayout::masses_ok;
use crate::forcelayout::nodes_view;
use crate::forcelayout::phase_integrate;
use crate::forcelayout::phase_pull;
use crate::forcelayout::phase_repulsion;
use crate::forcelayout::repulsion_accum;
use crate::forcelayout::repulsion_contrib;
use crate::forcelayout::reset_accels;
use crate::forcelayout::step_nodes;
use crate::forcelayout::apply_pull;
use crate::forcelayout::lemma_phase_pull_keeps_mpv;
use crate::math::V2;
use crate::math::Vector2;
use crate::math::v2_in_range;
use crate::math::vadd;
use crate::math::vzero;
use crate::physics::NodeState;
use crate::physics::SimParams;
use crate::physics::integrate_node;
use crate::physics::pull_vector;
use crate::physics::repulsion_force_between;

verus! {

/// One bubble as packed for the device node buffer: the mass, one padding
/// scalar (only to keep the position group aligned), then position,
/// velocity, and acceleration as two-scalar groups.
#[derive(Clone, Copy, Debug)]
pub struct BubbleGpuEntity {
    pub m: i64,
    pub _pad1: i64,
    pub p: [i64; 2],
    pub v: [i64; 2],
    pub a: [i64; 2],
}

impl View for BubbleGpuEntity {
    type V = NodeState;

    open spec fn view(&self) -> NodeState {
        NodeState {
            m: self.m as int,
            p: V2 { x: self.p[0] as int, y: self.p[1] as int },
            v: V2 { x: self.v[0] as int, y: self.v[1] as int },
            a: V2 { x: self.a[0] as int, y: self.a[1] as int },
        }
    }
}

/// One edge as packed for the device edge buffer: the two endpoint indices
/// and two padding words, four 32-bit words in all.
pub type EdgeEntity = [u32; 4];

/// The globals record: node count, edge count, two padding words.
pub type Globals = [u32; 4];

/// Ghost node states of a packed node buffer.
pub open spec fn entities_view(bs: Seq<BubbleGpuEntity>) -> Seq<NodeState> {
    Seq::new(bs.len(), |i: int| bs[i]@)
}

/// Ghost edge states of a packed edge buffer: the endpoints are the first
/// two words; a packed record carries no pull force or position cache.
pub open spec fn edge_records_view(es: Seq<EdgeEntity>) -> Seq<EdgeState> {
    Seq::new(
        es.len(),
        |i: int|
            EdgeState {
                from: es[i][0] as int,
                to: es[i][1] as int,
                pull_force: 0,
                position_from: vzero(),
                position_to: vzero(),
            },
    )
}

/// One step of the staged pipeline: repulsion, pull, integration, with no
/// separate reset (the repulsion stage overwrites every acceleration).
pub open spec fn staged_step_nodes(
    ns: Seq<NodeState>,
    ges: Seq<EdgeState>,
    prm: SimParams,
) -> Seq<NodeState> {
    phase_integrate(
        phase_pull(phase_repulsion(ns, prm.k_rep as int), ges, prm.k_pull as int, ges.len() as int),
        prm.dt as int,
        prm.damping as int,
    )
}

/// The repulsion accumulation reads only masses and positions.
proof fn lemma_accum_mp_congruent(ns1: Seq<NodeState>, ns2: Seq<NodeState>, k: int, i: int, upto: int)
    requires
        ns1.len() == ns2.len(),
        forall|v: int|
            0 <= v < ns1.len() ==> (#[trigger] ns1[v]).m == ns2[v].m && ns1[v].p == ns2[v].p,
        0 <= i < ns1.len(),
        upto <= ns1.len(),
    ensures
        repulsion_accum(ns1, k, i, upto) == repulsion_accum(ns2, k, i, upto),
    decreases upto,
{
    if upto > 0 {
        lemma_accum_mp_congruent(ns1, ns2, k, i, upto - 1);
        if upto - 1 != i {
            assert(repulsion_contrib(ns1, k, i, upto - 1) == repulsion_contrib(
                ns2,
                k,
                i,
                upto - 1,
            ));
        }
    }
}

/// Skipping the reset phase changes nothing for the repulsion phase: it
/// overwrites every acceleration and reads only masses and positions.
pub proof fn lemma_phase_repulsion_drops_reset(ns: Seq<NodeState>, k: int)
    ensures
        phase_repulsion(reset_accels(ns), k) == phase_repulsion(ns, k),
{
    let ns_r = reset_accels(ns);
    assert forall|v: int|
        0 <= v < ns.len() implies (#[trigger] ns_r[v]).m == ns[v].m && ns_r[v].p == ns[v].p
        && ns_r[v].v == ns[v].v by {
        assert(reset_accels(ns)[v].m == ns[v].m);
    }
    assert forall|v: int|
        0 <= v < ns.len() implies #[trigger] phase_repulsion(ns_r, k)[v] == phase_repulsion(
        ns,
        k,
    )[v] by {
        lemma_accum_mp_congruent(ns_r, ns, k, v, ns.len() as int);
    }
    assert(phase_repulsion(reset_accels(ns), k) =~= phase_repulsion(ns, k));
}

/// The pull phase reads only the edges' endpoints.
proof fn lemma_phase_pull_endpoints(
    ns: Seq<NodeState>,
    es1: Seq<EdgeState>,
    es2: Seq<EdgeState>,
    k: int,
    upto: int,
)
    requires
        es1.len() == es2.len(),
        forall|e: int|
            0 <= e < es1.len() ==> (#[trigger] es1[e]).from == es2[e].from && es1[e].to
                == es2[e].to,
        upto <= es1.len(),
    ensures
        phase_pull(ns, es1, k, upto) == phase_pull(ns, es2, k, upto),
    decreases upto,
{
    if upto > 0 {
        lemma_phase_pull_endpoints(ns, es1, es2, k, upto - 1);
    }
}

/// A whole step reads only the edges' endpoints, never their outputs.
pub proof fn lemma_step_nodes_endpoints_only(
    ns: Seq<NodeState>,
    es1: Seq<EdgeState>,
    es2: Seq<EdgeState>,
    prm: SimParams,
)
    requires
        es1.len() == es2.len(),
        forall|e: int|
            0 <= e < es1.len() ==> (#[trigger] es1[e]).from == es2[e].from && es1[e].to
                == es2[e].to,
    ensures
        step_nodes(ns, es1, prm) == step_nodes(ns, es2, prm),
{
    lemma_phase_pull_endpoints(
        phase_repulsion(reset_accels(ns), prm.k_rep as int),
        es1,
        es2,
        prm.k_pull as int,
        es1.len() as int,
    );
}

/// Cross-backend equivalence: on node states and edges with the same
/// endpoints, the staged pipeline computes exactly the node states of the
/// sequential step — the two engines agree bit for bit.
pub proof fn lemma_cross_backend_equivalence(
    ns: Seq<NodeState>,
    es: Seq<EdgeState>,
    ges: Seq<EdgeState>,
    prm: SimParams,
)
    requires
        es.len() == ges.len(),
        forall|e: int|
            0 <= e < es.len() ==> (#[trigger] es[e]).from == ges[e].from && es[e].to == ges[e].to,
    ensures
        staged_step_nodes(ns, ges, prm) == step_nodes(ns, es, prm),
{
    lemma_phase_repulsion_drops_reset(ns, prm.k_rep as int);
    lemma_phase_pull_endpoints(
        phase_repulsion(ns, prm.k_rep as int),
        ges,
        es,
        prm.k_pull as int,
        ges.len() as int,
    );
}

/// Stage one of the pipeline: one unit of work per node, overwriting that
/// node's acceleration with its accumulated repulsion against all other
/// nodes (an O(n) inner scan per unit). Only accelerations are written, so
/// the units are free of write conflicts.
fn stage_repulsion(buf: &mut Vec<BubbleGpuEntity>, k: i64)
    requires
        k >= 0,
        masses_ok(entities_view(old(buf)@)),
    ensures
        entities_view(final(buf)@) == phase_repulsion(entities_view(old(buf)@), k as int),
{
    let ghost ns0 = entities_view(buf@);
    let ghost ki = k as int;
    let n = buf.len();
    let mut i: usize = 0;
    while i < n
        invariant
            i <= n,
            n == buf@.len(),
            ns0.len() == n,
            ki == k as int,
            k >= 0,
            masses_ok(ns0),
            forall|v: int| 0 <= v < n ==> {
                let b = (#[trigger] buf@[v])@;
                b.m == ns0[v].m && b.p == ns0[v].p && b.v == ns0[v].v
            },
            forall|v: int|
                0 <= v < i ==> (#[trigger] buf@[v])@.a == repulsion_accum(ns0, ki, v, n as int),
            forall|v: int| i <= v < n ==> (#[trigger] buf@[v])@.a == ns0[v].a,
        decreases n - i,
    {
        let bi = buf[i];
        let pi = Vector2 { x: bi.p[0], y: bi.p[1] };
        let mut acc = Vector2::new();
        let mut j: usize = 0;
        let ghost bsnap = buf@;
        proof {
            assert(repulsion_accum(ns0, ki, i as int, 0) == vzero());
        }
        while j < n
            invariant
                j <= n,
                i < n,
                n == buf@.len(),
                ns0.len() == n,
                ki == k as int,
                k >= 0,
                masses_ok(ns0),
                buf@ == bsnap,
                forall|v: int| 0 <= v < n ==> {
                    let b = (#[trigger] buf@[v])@;
                    b.m == ns0[v].m && b.p == ns0[v].p && b.v == ns0[v].v
                },
                bi == buf@[i as int],
                pi@ == ns0[i as int].p,
                bi.m as int == ns0[i as int].m,
                acc@ == repulsion_accum(ns0, ki, i as int, j as int),
            decreases n - j,
        {
            if j != i {
                let bj = buf[j];
                let pj = Vector2 { x: bj.p[0], y: bj.p[1] };
                proof {
                    assert(ns0[i as int].m > 0);
                    assert(pj@ == ns0[j as int].p);
                }
                let f = repulsion_force_between(k, bi.m, bj.m, &pi, &pj);
                let c = f.div_s(bi.m);
                acc = acc.add(&c);
                proof {
                    assert(c@ == repulsion_contrib(ns0, ki, i as int, j as int));
                    assert(repulsion_accum(ns0, ki, i as int, j as int + 1) == vadd(
                        repulsion_accum(ns0, ki, i as int, j as int),
                        repulsion_contrib(ns0, ki, i as int, j as int),
                    ));
                }
            } else {
                proof {
                    assert(repulsion_accum(ns0, ki, i as int, j as int + 1) == repulsion_accum(
                        ns0,
                        ki,
                        i as int,
                        j as int,
                    ));
                }
            }
            j += 1;
        }
        let mut b2 = bi;
        b2.a = [acc.x, acc.y];
        buf.set(i, b2);
        proof {
            assert(buf@[i as int]@.a == repulsion_accum(ns0, ki, i as int, n as int));
        }
        i += 1;
    }
    proof {
        assert forall|v: int|
            0 <= v < n implies #[trigger] entities_view(buf@)[v] == phase_repulsion(ns0, ki)[v] by {
            assert(buf@[v]@.a == repulsion_accum(ns0, ki, v, n as int));
        }
        assert(entities_view(buf@) =~= phase_repulsion(ns0, ki));
    }
}

/// Stage two of the pipeline: one unit of work per edge, accumulating the
/// mass-weighted Hookean pull into the two endpoint nodes' accelerations.
/// The units commit in edge order.
fn stage_pull(buf: &mut Vec<BubbleGpuEntity>, edges: &Vec<EdgeEntity>, k: i64)
    requires
        k >= 0,
        masses_ok(entities_view(old(buf)@)),
        edges_ok(edge_records_view(edges@), old(buf)@.len()),
    ensures
        entities_view(final(buf)@) == phase_pull(
            entities_view(old(buf)@),
            edge_records_view(edges@),
            k as int,
            edges@.len() as int,
        ),
{
    let ghost ns0 = entities_view(buf@);
    let ghost es0 = edge_records_view(edges@);
    let ghost ki = k as int;
    let n = buf.len();
    let m = edges.len();
    let mut e: usize = 0;
    while e < m
        invariant
            e <= m,
            n == buf@.len(),
            m == edges@.len(),
            ns0.len() == n,
            es0.len() == m,
            es0 == edge_records_view(edges@),
            ki == k as int,
            k >= 0,
            masses_ok(ns0),
            edges_ok(es0, n as nat),
            entities_view(buf@) == phase_pull(ns0, es0, ki, e as int),
        decreases m - e,
    {
        let ghost prev = phase_pull(ns0, es0, ki, e as int);
        proof {
            lemma_phase_pull_keeps_mpv(ns0, es0, ki, e as int);
            assert(es0[e as int].from < n && es0[e as int].to < n);
        }
        let rec = edges[e];
        let from = rec[0] as usize;
        let to = rec[1] as usize;
        proof {
            assert(es0[e as int].from == rec[0] as int && es0[e as int].to == rec[1] as int);
        }
        let bf = buf[from];
        let bt = buf[to];
        let pf = Vector2 { x: bf.p[0], y: bf.p[1] };
        let pt = Vector2 { x: bt.p[0], y: bt.p[1] };
        let d = pt.sub(&pf);
        let pv = d.mul_s(k);
        proof {
            crate::math::lemma_vscale_in_range(d@, ki);
            assert(from as int == es0[e as int].from && to as int == es0[e as int].to);
            assert(entities_view(buf@)[from as int] == buf@[from as int]@);
            assert(entities_view(buf@)[to as int] == buf@[to as int]@);
            assert(phase_pull(ns0, es0, ki, e as int)[from as int].m == ns0[from as int].m);
            assert(phase_pull(ns0, es0, ki, e as int)[to as int].m == ns0[to as int].m);
            assert(phase_pull(ns0, es0, ki, e as int)[from as int].p == ns0[from as int].p);
            assert(phase_pull(ns0, es0, ki, e as int)[to as int].p == ns0[to as int].p);
            assert(buf@[from as int]@.m == ns0[from as int].m);
            assert(ns0[from as int].m > 0);
            assert(ns0[to as int].m > 0);
            assert(pv@ == pull_vector(ki, prev[from as int].p, prev[to as int].p));
        }
        let cf = pv.div_s(bf.m);
        let mut bf2 = buf[from];
        bf2.a = [crate::fixed::fp_add(bf2.a[0], cf.x), crate::fixed::fp_add(bf2.a[1], cf.y)];
        buf.set(from, bf2);
        proof {
            if to == from {
                assert(buf@[to as int]@.m == bf2.m as int);
            } else {
                assert(buf@[to as int]@.m == prev[to as int].m);
            }
            assert(buf@[to as int]@.m > 0);
            assert(v2_in_range(pv@));
        }
        let pvn = pv.neg();
        let mut bt2 = buf[to];
        let ct = pvn.div_s(bt2.m);
        bt2.a = [crate::fixed::fp_add(bt2.a[0], ct.x), crate::fixed::fp_add(bt2.a[1], ct.y)];
        buf.set(to, bt2);
        proof {
            assert(entities_view(buf@) =~= apply_pull(prev, ki, from as int, to as int));
            assert(phase_pull(ns0, es0, ki, e as int + 1) == apply_pull(
                prev,
                ki,
                es0[e as int].from,
                es0[e as int].to,
            ));
        }
        e += 1;
    }
}

/// Stage three of the pipeline: one unit of work per node, damping the
/// velocity, adding the acceleration contribution, and advancing the
/// position, reading only that node's own record.
fn stage_integrate(buf: &mut Vec<BubbleGpuEntity>, dt: i64, damping: i64)
    ensures
        entities_view(final(buf)@) == phase_integrate(
            entities_view(old(buf)@),
            dt as int,
            damping as int,
        ),
{
    let ghost ns0 = entities_view(buf@);
    let n = buf.len();
    let mut i: usize = 0;
    while i < n
        invariant
            i <= n,
            n == buf@.len(),
            ns0.len() == n,
            forall|v: int|
                0 <= v < i ==> (#[trigger] buf@[v])@ == integrate_node(
                    ns0[v],
                    dt as int,
                    damping as int,
                ),
            forall|v: int| i <= v < n ==> (#[trigger] buf@[v])@ == ns0[v],
        decreases n - i,
    {
        let b = buf[i];
        let vv = Vector2 { x: b.v[0], y: b.v[1] };
        let aa = Vector2 { x: b.a[0], y: b.a[1] };
        let pp = Vector2 { x: b.p[0], y: b.p[1] };
        let damped = vv.mul_s(damping);
        let adt = aa.mul_s(dt);
        let v1 = damped.add(&adt);
        let p1 = pp.add(&v1.mul_s(dt));
        let mut b2 = b;
        b2.v = [v1.x, v1.y];
        b2.p = [p1.x, p1.y];
        buf.set(i, b2);
        i += 1;
    }
    proof {
        assert(entities_view(buf@) =~= phase_integrate(ns0, dt as int, damping as int));
    }
}

/// Copy a node buffer, record by record.
fn copy_entities(src: &Vec<BubbleGpuEntity>) -> (r: Vec<BubbleGpuEntity>)
    ensures
        r@ == src@,
{
    let mut out: Vec<BubbleGpuEntity> = Vec::new();
    let mut i: usize = 0;
    while i < src.len()
        invariant
            i <= src@.len(),
            out@ == src@.subrange(0, i as int),
        decreases src@.len() - i,
    {
        out.push(src[i]);
        i += 1;
    }
    proof {
        assert(out@ =~= src@);
    }
    out
}

/// The parallel engine's buffers and pipeline state.
///
/// The node, edge, and globals buffers are built once per topology (a fixed
/// node and edge count); per-step updates rewrite only the node buffer's
/// contents. At most one step is in flight at a time: a dispatch fills the
/// staging buffer, and the readback empties it.
pub struct GpuForcelayout {
    edge_buffer: Vec<EdgeEntity>,
    bubble_buffer: Vec<BubbleGpuEntity>,
    globals_buffer: Globals,
    staging_buffer: Vec<BubbleGpuEntity>,
    params: SimParams,
    bubble_count: u32,
    edge_count: u32,
    in_flight: bool,
}

impl GpuForcelayout {
    /// The engine's buffers are consistent: counts match the buffers, the
    /// globals record holds them, masses are positive, and every edge
    /// record points at valid nodes.
    pub closed spec fn wf(&self) -> bool {
        &&& self.bubble_count as int == self.bubble_buffer@.len()
        &&& self.edge_count as int == self.edge_buffer@.len()
        &&& self.globals_buffer[0] == self.bubble_count
        &&& self.globals_buffer[1] == self.edge_count
        &&& self.globals_buffer[2] == 0
        &&& self.globals_buffer[3] == 0
        &&& masses_ok(entities_view(self.bubble_buffer@))
        &&& edges_ok(edge_records_view(self.edge_buffer@), self.bubble_buffer@.len())
        &&& self.params.wf()
    }

    /// The node states held in the node buffer.
    pub closed spec fn nodes(&self) -> Seq<NodeState> {
        entities_view(self.bubble_buffer@)
    }

    /// The edge endpoints held in the edge buffer.
    pub closed spec fn edge_endpoints(&self) -> Seq<EdgeState> {
        edge_records_view(self.edge_buffer@)
    }

    /// The constants the engine was built with.
    pub closed spec fn params_spec(&self) -> SimParams {
        self.params
    }

    /// No step is in flight.
    pub closed spec fn idle(&self) -> bool {
        !self.in_flight
    }

    /// Build the engine's buffers for one topology and upload the packed
    /// records and the globals.
    pub fn new(bubbles: Vec<BubbleGpuEntity>, edges: Vec<EdgeEntity>, params: SimParams) -> (r:
        Self)
        requires
            params.wf(),
            masses_ok(entities_view(bubbles@)),
            edges_ok(edge_records_view(edges@), bubbles@.len()),
            bubbles@.len() <= u32::MAX,
            edges@.len() <= u32::MAX,
        ensures
            r.wf(),
            r.idle(),
            r.nodes() == entities_view(bubbles@),
            r.edge_endpoints() == edge_records_view(edges@),
            r.params_spec() == params,
    {
        let bubble_count = bubbles.len() as u32;
        let edge_count = edges.len() as u32;
        let globals: Globals = [bubble_count, edge_count, 0, 0];
        GpuForcelayout {
            edge_buffer: edges,
            bubble_buffer: bubbles,
            globals_buffer: globals,
            staging_buffer: Vec::new(),
            params,
            bubble_count,
            edge_count,
            in_flight: false,
        }
    }

    /// Rewrite the node buffer's contents for the next step. The topology
    /// is fixed: the records must match the buffer's size.
    pub fn write_node_buffer(&mut self, bubbles: Vec<BubbleGpuEntity>)
        requires
            old(self).wf(),
            old(self).idle(),
            masses_ok(entities_view(bubbles@)),
            bubbles@.len() == old(self).nodes().len(),
        ensures
            final(self).wf(),
            final(self).idle(),
            final(self).nodes() == entities_view(bubbles@),
            final(self).edge_endpoints() == old(self).edge_endpoints(),
            final(self).params_spec() == old(self).params_spec(),
    {
        self.bubble_buffer = bubbles;
    }

    /// Dispatch the three stages as one ordered submission and copy the
    /// node buffer into the staging buffer.
    fn dispatch(&mut self)
        requires
            old(self).wf(),
            old(self).idle(),
        ensures
            final(self).wf(),
            !final(self).idle(),
            final(self).nodes() == staged_step_nodes(
                old(self).nodes(),
                old(self).edge_endpoints(),
                old(self).params_spec(),
            ),
            entities_view(final(self).staging_buffer@) == final(self).nodes(),
            final(self).edge_endpoints() == old(self).edge_endpoints(),
            final(self).params_spec() == old(self).params_spec(),
    {
        let ghost ns0 = entities_view(self.bubble_buffer@);
        let ghost es0 = edge_records_view(self.edge_buffer@);
        let ghost prm = self.params;
        let ghost n = self.bubble_buffer@.len();
        stage_repulsion(&mut self.bubble_buffer, self.params.k_rep);
        let ghost ns_a = phase_repulsion(ns0, prm.k_rep as int);
        proof {
            assert(entities_view(self.bubble_buffer@) == ns_a);
            assert(ns_a.len() == n);
            assert(entities_view(self.bubble_buffer@).len() == self.bubble_buffer@.len());
            assert forall|v: int|
                0 <= v < n implies (#[trigger] entities_view(self.bubble_buffer@)[v]).m > 0 by {
                assert(phase_repulsion(ns0, prm.k_rep as int)[v].m == ns0[v].m);
                assert(ns0[v].m > 0);
            }
            assert(masses_ok(entities_view(self.bubble_buffer@)));
        }
        stage_pull(&mut self.bubble_buffer, &self.edge_buffer, self.params.k_pull);
        let ghost ns_b = phase_pull(ns_a, es0, prm.k_pull as int, es0.len() as int);
        stage_integrate(&mut self.bubble_buffer, self.params.dt, self.params.damping);
        proof {
            lemma_phase_pull_keeps_mpv(ns_a, es0, prm.k_pull as int, es0.len() as int);
            assert(entities_view(self.bubble_buffer@) == phase_integrate(
                ns_b,
                prm.dt as int,
                prm.damping as int,
            ));
            assert(ns_b.len() == n);
            assert(entities_view(self.bubble_buffer@).len() == self.bubble_buffer@.len());
            assert forall|v: int|
                0 <= v < n implies (#[trigger] entities_view(self.bubble_buffer@)[v]).m > 0 by {
                assert(phase_integrate(ns_b, prm.dt as int, prm.damping as int)[v]
                    == integrate_node(ns_b[v], prm.dt as int, prm.damping as int));
                assert(ns_b[v].m == ns_a[v].m);
                assert(phase_repulsion(ns0, prm.k_rep as int)[v].m == ns0[v].m);
                assert(ns0[v].m > 0);
            }
            assert(masses_ok(entities_view(self.bubble_buffer@)));
        }
        self.staging_buffer = copy_entities(&self.bubble_buffer);
        self.in_flight = true;
    }

    /// Read the staged result back: return the staging buffer's records
    /// and release it.
    fn get_compute_result(&mut self) -> (r: Vec<BubbleGpuEntity>)
        requires
            old(self).wf(),
            !old(self).idle(),
        ensures
            final(self).wf(),
            final(self).idle(),
            r@ == old(self).staging_buffer@,
            final(self).nodes() == old(self).nodes(),
            final(self).edge_endpoints() == old(self).edge_endpoints(),
            final(self).params_spec() == old(self).params_spec(),
    {
        let result = copy_entities(&self.staging_buffer);
        self.staging_buffer = Vec::new();
        self.in_flight = false;
        result
    }

    /// Compute one step: dispatch the three ordered stages over the node
    /// buffer and read the updated node records back. The result equals
    /// the sequential engine's step on the same states — the two backends
    /// agree exactly.
    pub fn compute(&mut self) -> (r: Vec<BubbleGpuEntity>)
        requires
            old(self).wf(),
            old(self).idle(),
        ensures
            final(self).wf(),
            final(self).idle(),
            entities_view(r@) == step_nodes(
                old(self).nodes(),
                old(self).edge_endpoints(),
                old(self).params_spec(),
            ),
            final(self).nodes() == entities_view(r@),
            final(self).edge_endpoints() == old(self).edge_endpoints(),
            final(self).params_spec() == old(self).params_spec(),
    {
        self.dispatch();
        let r = self.get_compute_result();
        proof {
            lemma_cross_backend_equivalence(
                old(self).nodes(),
                old(self).edge_endpoints(),
                old(self).edge_endpoints(),
                old(self).params_spec(),
            );
        }
        r
    }
}

/// Pack the authoritative bubbles into device node records.
pub fn pack_bubbles(bubbles: &Vec<Bubble>) -> (r: Vec<BubbleGpuEntity>)
    ensures
        r@.len() == bubbles@.len(),
        entities_view(r@) == nodes_view(bubbles@),
{
    let mut bubble_physics_entities: Vec<BubbleGpuEntity> = Vec::new();
    let n = bubbles.len();
    let mut i: usize = 0;
    while i < n
        invariant
            i <= n,
            n == bubbles@.len(),
            bubble_physics_entities@.len() == i,
            forall|v: int|
                0 <= v < i ==> (#[trigger] bubble_physics_entities@[v])@ == bubbles@[v]@,
        decreases n - i,
    {
        let b = bubbles[i];
        bubble_physics_entities.push(
            BubbleGpuEntity {
                m: b.size,
                _pad1: 0,
                p: [b.position.x, b.position.y],
                v: [b.v.x, b.v.y],
                a: [b.a.x, b.a.y],
            },
        );
        i += 1;
    }
    proof {
        assert(entities_view(bubble_physics_entities@) =~= nodes_view(bubbles@));
    }
    bubble_physics_entities
}

/// Pack the authoritative bubbles and edges into device records and build
/// the parallel engine over them.
pub fn create_forcelayout_instance(
    bubbles: &Vec<Bubble>,
    edges: &Vec<Edge>,
    params: SimParams,
) -> (r: GpuForcelayout)
    requires
        params.wf(),
        masses_ok(nodes_view(bubbles@)),
        edges_ok(edges_view(edges@), bubbles@.len()),
        bubbles@.len() <= u32::MAX,
        edges@.len() <= u32::MAX,
    ensures
        r.wf(),
        r.idle(),
        r.nodes() == nodes_view(bubbles@),
        r.params_spec() == params,
        r.edge_endpoints().len() == edges@.len(),
        forall|e: int|
            0 <= e < edges@.len() ==> (#[trigger] r.edge_endpoints()[e]).from == edges@[e]@.from
                && r.edge_endpoints()[e].to == edges@[e]@.to,
{
    let bubble_physics_entities = pack_bubbles(bubbles);
    let mut edge_entities: Vec<EdgeEntity> = Vec::new();
    let ghost n = bubbles@.len();
    let m = edges.len();
    let mut e: usize = 0;
    while e < m
        invariant
            e <= m,
            m == edges@.len(),
            n == bubbles@.len(),
            n <= u32::MAX,
            edges_ok(edges_view(edges@), n as nat),
            edge_entities@.len() == e,
            forall|v: int|
                0 <= v < e ==> (#[trigger] edge_entities@[v])[0] as int == edges@[v]@.from
                    && edge_entities@[v][1] as int == edges@[v]@.to,
        decreases m - e,
    {
        let ed = edges[e];
        proof {
            assert(edges_view(edges@)[e as int].from == ed@.from);
            assert(edges_view(edges@)[e as int].from < n);
            assert(edges_view(edges@)[e as int].to < n);
        }
        edge_entities.push([ed.from as u32, ed.to as u32, 0, 0]);
        e += 1;
    }
    proof {
        assert forall|v: int|
            0 <= v < n implies (#[trigger] entities_view(bubble_physics_entities@)[v]).m > 0 by {
            assert(nodes_view(bubbles@)[v].m > 0);
        }
        assert(masses_ok(entities_view(bubble_physics_entities@)));
        assert forall|v: int|
            0 <= v < m implies 0 <= (#[trigger] edge_records_view(edge_entities@)[v]).from < n
            && 0 <= edge_records_view(edge_entities@)[v].to < n by {
            assert(edges_view(edges@)[v].from == edges@[v]@.from);
            assert(edges_view(edges@)[v].from < n && edges_view(edges@)[v].to < n);
        }
        assert(edges_ok(edge_records_view(edge_entities@), n as nat));
    }
    GpuForcelayout::new(bubble_physics_entities, edge_entities, params)
}

} // verus!
