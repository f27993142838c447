//! The orchestrator: owns the authoritative bubble and edge arrays,
//! selects a backend, drives one step per tick, and publishes the stepped
//! snapshot.
//!
//! Both backends leave the arrays in exactly the same state after a tick —
//! the contract of [`Orchestrator::tick`] is one step of
//! [`crate::forcelayout::step_nodes`] whichever backend runs. A topology
//! change (adding a bubble or an edge) marks the device buffers stale, and
//! the next parallel tick rebuilds them rather than resizing in place.

use vstd::prelude::*;
use vstd::pervasive::VecAdditionalExecFns;
use crate::bubble::Bubble;
use crate::edge::Edge;
use crate::edge::EdgeState;
use crate::fixed::fp_mul;
use crate::forcelayout::edges_ok;
use crate::forcelayout::edges_view;
use crate::forcelayout::forcelayout;
use crate::forcelayout::lemma_step_preserves_masses;
use crate::forcelayout::masses_ok;
use crate::forcelayout::nodes_view;
use crate::forcelayout::refresh_edge_caches;
use crate::forcelayout::step_edge;
use crate::forcelayout::step_nodes;
use crate::gpu_forcelayout::BubbleGpuEntity;
use crate::gpu_forcelayout::GpuForcelayout;
use crate::gpu_forcelayout::create_forcelayout_instance;
use crate::gpu_forcelayout::entities_view;
use crate::gpu_forcelayout::lemma_step_nodes_endpoints_only;
use crate::gpu_forcelayout::pack_bubbles;
use crate::math::Vector2;
use crate::physics::NodeState;
use crate::physics::SimParams;
use crate::physics::pull_magnitude;

verus! {

/// Which engine a run uses. Exactly one backend is selected per run.
#[derive(Clone, Copy, Debug, PartialEq, Eq, Structural)]
pub enum Backend {
    Sequential,
    Parallel,
}

/// The per-tick state machine of the parallel backend: a tick dispatches a
/// step and must await its readback before the next one starts.
#[derive(Clone, Copy, Debug, PartialEq, Eq, Structural)]
pub enum StepPhase {
    Idle,
    StepInFlight,
}

/// Record every edge's pull-force magnitude from the bubbles' current
/// positions (the host-side half of the parallel step, which keeps the
/// edge outputs identical across backends).
fn record_pull_forces(bubbles: &Vec<Bubble>, edges: &mut Vec<Edge>, k: i64)
    requires
        edges_ok(edges_view(old(edges)@), bubbles@.len()),
    ensures
        final(edges)@.len() == old(edges)@.len(),
        forall|e: int|
            0 <= e < old(edges)@.len() ==> {
                let ed = (#[trigger] final(edges)@[e])@;
                let ed0 = old(edges)@[e]@;
                &&& ed.from == ed0.from
                &&& ed.to == ed0.to
                &&& ed.position_from == ed0.position_from
                &&& ed.position_to == ed0.position_to
                &&& ed.pull_force == pull_magnitude(
                    k as int,
                    bubbles@[ed0.from]@.p,
                    bubbles@[ed0.to]@.p,
                )
            },
{
    let ghost es0 = edges_view(edges@);
    let m = edges.len();
    let mut e: usize = 0;
    while e < m
        invariant
            e <= m,
            m == edges@.len(),
            es0.len() == m,
            edges_ok(es0, bubbles@.len()),
            forall|idx: int| e <= idx < m ==> (#[trigger] edges@[idx])@ == es0[idx],
            forall|idx: int|
                0 <= idx < e ==> {
                    let ed = (#[trigger] edges@[idx])@;
                    let ed0 = es0[idx];
                    &&& ed.from == ed0.from
                    &&& ed.to == ed0.to
                    &&& ed.position_from == ed0.position_from
                    &&& ed.position_to == ed0.position_to
                    &&& ed.pull_force == pull_magnitude(
                        k as int,
                        bubbles@[ed0.from]@.p,
                        bubbles@[ed0.to]@.p,
                    )
                },
        decreases m - e,
    {
        proof {
            assert(es0[e as int].from < bubbles@.len() && es0[e as int].to < bubbles@.len());
        }
        let ed = edges[e];
        let bf = bubbles[ed.from];
        let bt = bubbles[ed.to];
        let d = bt.position.sub(&bf.position);
        let mut ed2 = ed;
        ed2.pull_force = fp_mul(k, d.len());
        edges.set(e, ed2);
        e += 1;
    }
}

/// Decode the device records read back from a step into the authoritative
/// bubbles.
fn unpack_result(bubbles: &mut Vec<Bubble>, result: &Vec<BubbleGpuEntity>)
    requires
        old(bubbles)@.len() == result@.len(),
    ensures
        final(bubbles)@.len() == old(bubbles)@.len(),
        nodes_view(final(bubbles)@) == entities_view(result@),
{
    let n = bubbles.len();
    let mut i: usize = 0;
    while i < n
        invariant
            i <= n,
            n == bubbles@.len(),
            n == result@.len(),
            forall|v: int| 0 <= v < i ==> (#[trigger] bubbles@[v])@ == result@[v]@,
        decreases n - i,
    {
        let ent = result[i];
        let b = Bubble {
            position: Vector2 { x: ent.p[0], y: ent.p[1] },
            size: ent.m,
            v: Vector2 { x: ent.v[0], y: ent.v[1] },
            a: Vector2 { x: ent.a[0], y: ent.a[1] },
        };
        bubbles.set(i, b);
        i += 1;
    }
    proof {
        assert(nodes_view(bubbles@) =~= entities_view(result@));
    }
}

/// The owner of the authoritative simulation state.
pub struct Orchestrator {
    bubbles: Vec<Bubble>,
    edges: Vec<Edge>,
    params: SimParams,
    backend: Backend,
    device: Option<GpuForcelayout>,
    device_stale: bool,
    phase: StepPhase,
}

impl Orchestrator {
    /// The authoritative state is consistent: positive masses, valid edge
    /// endpoints, well-formed constants, no step in flight, and — when the
    /// device buffers are current — a device that matches the topology.
    pub closed spec fn wf(&self) -> bool {
        &&& self.params.wf()
        &&& masses_ok(nodes_view(self.bubbles@))
        &&& edges_ok(edges_view(self.edges@), self.bubbles@.len())
        &&& self.bubbles@.len() <= u32::MAX
        &&& self.edges@.len() <= u32::MAX
        &&& self.phase == StepPhase::Idle
        &&& match self.device {
            Option::Some(d) => !self.device_stale ==> {
                &&& d.wf()
                &&& d.idle()
                &&& d.params_spec() == self.params
                &&& d.nodes().len() == self.bubbles@.len()
                &&& d.edge_endpoints().len() == self.edges@.len()
                &&& forall|e: int|
                    0 <= e < self.edges@.len() ==> (#[trigger] d.edge_endpoints()[e]).from
                        == self.edges@[e]@.from && d.edge_endpoints()[e].to == self.edges@[e]@.to
            },
            Option::None => true,
        }
    }

    /// The authoritative node states.
    pub closed spec fn nodes(&self) -> Seq<NodeState> {
        nodes_view(self.bubbles@)
    }

    /// The authoritative edge states.
    pub closed spec fn edge_states(&self) -> Seq<EdgeState> {
        edges_view(self.edges@)
    }

    /// The constants of this run.
    pub closed spec fn params_spec(&self) -> SimParams {
        self.params
    }

    /// The backend selected for this run.
    pub closed spec fn backend_spec(&self) -> Backend {
        self.backend
    }

    /// Take ownership of the initial state and select a backend.
    pub fn new(bubbles: Vec<Bubble>, edges: Vec<Edge>, params: SimParams, backend: Backend) -> (r:
        Self)
        requires
            params.wf(),
            masses_ok(nodes_view(bubbles@)),
            edges_ok(edges_view(edges@), bubbles@.len()),
            bubbles@.len() <= u32::MAX,
            edges@.len() <= u32::MAX,
        ensures
            r.wf(),
            r.nodes() == nodes_view(bubbles@),
            r.edge_states() == edges_view(edges@),
            r.params_spec() == params,
            r.backend_spec() == backend,
    {
        Orchestrator {
            bubbles,
            edges,
            params,
            backend,
            device: Option::None,
            device_stale: true,
            phase: StepPhase::Idle,
        }
    }

    /// The published per-step snapshot of the bubbles.
    pub fn snapshot_bubbles(&self) -> (r: &Vec<Bubble>)
        ensures
            nodes_view(r@) == self.nodes(),
    {
        &self.bubbles
    }

    /// The published per-step snapshot of the edges.
    pub fn snapshot_edges(&self) -> (r: &Vec<Edge>)
        ensures
            edges_view(r@) == self.edge_states(),
    {
        &self.edges
    }

    /// Append a bubble between steps: a topology change, which invalidates
    /// any device buffers sized for the old count.
    pub fn add_bubble(&mut self, b: Bubble)
        requires
            old(self).wf(),
            b.size > 0,
            old(self).nodes().len() < u32::MAX,
        ensures
            final(self).wf(),
            final(self).nodes() == old(self).nodes().push(b@),
            final(self).edge_states() == old(self).edge_states(),
            final(self).params_spec() == old(self).params_spec(),
            final(self).backend_spec() == old(self).backend_spec(),
    {
        self.bubbles.push(b);
        self.device_stale = true;
        proof {
            assert(nodes_view(self.bubbles@) =~= nodes_view(old(self).bubbles@).push(b@));
            assert forall|i: int|
                0 <= i < self.edges@.len() implies 0 <= (#[trigger] edges_view(self.edges@)[i]).from
                < self.bubbles@.len() && 0 <= edges_view(self.edges@)[i].to
                < self.bubbles@.len() by {
                assert(edges_view(old(self).edges@)[i] == edges_view(self.edges@)[i]);
                assert(edges_view(old(self).edges@)[i].from < old(self).bubbles@.len());
            }
            assert(edges_view(self.edges@) =~= edges_view(old(self).edges@));
        }
    }

    /// Append an edge between steps: a topology change, which invalidates
    /// any device buffers sized for the old count.
    pub fn add_edge(&mut self, from: usize, to: usize)
        requires
            old(self).wf(),
            from < old(self).nodes().len(),
            to < old(self).nodes().len(),
            old(self).edge_states().len() < u32::MAX,
        ensures
            final(self).wf(),
            final(self).nodes() == old(self).nodes(),
            final(self).edge_states().len() == old(self).edge_states().len() + 1,
            forall|e: int|
                0 <= e < old(self).edge_states().len() ==> final(self).edge_states()[e] == old(
                    self,
                ).edge_states()[e],
            final(self).edge_states().last().from == from as int,
            final(self).edge_states().last().to == to as int,
            final(self).params_spec() == old(self).params_spec(),
            final(self).backend_spec() == old(self).backend_spec(),
    {
        self.edges.push(Edge::new(from, to));
        self.device_stale = true;
        proof {
            assert(nodes_view(self.bubbles@) =~= nodes_view(old(self).bubbles@));
            assert forall|i: int|
                0 <= i < self.edges@.len() implies 0 <= (#[trigger] edges_view(self.edges@)[i]).from
                < self.bubbles@.len() && 0 <= edges_view(self.edges@)[i].to
                < self.bubbles@.len() by {
                if i < old(self).edges@.len() {
                    assert(self.edges@[i] == old(self).edges@[i]);
                    assert(edges_view(old(self).edges@)[i].from < old(self).bubbles@.len());
                }
            }
        }
    }

    /// Drive one step: invoke the selected engine and leave the
    /// authoritative arrays holding the stepped state. Both backends
    /// produce exactly the same arrays.
    pub fn tick(&mut self)
        requires
            old(self).wf(),
        ensures
            final(self).wf(),
            final(self).nodes().len() == old(self).nodes().len(),
            final(self).nodes() == step_nodes(
                old(self).nodes(),
                old(self).edge_states(),
                old(self).params_spec(),
            ),
            final(self).edge_states().len() == old(self).edge_states().len(),
            forall|e: int|
                0 <= e < old(self).edge_states().len() ==> final(self).edge_states()[e]
                    == step_edge(
                    old(self).nodes(),
                    old(self).edge_states(),
                    old(self).params_spec(),
                    e,
                ),
            final(self).params_spec() == old(self).params_spec(),
            final(self).backend_spec() == old(self).backend_spec(),
    {
        let ghost ns0 = nodes_view(self.bubbles@);
        let ghost es0 = edges_view(self.edges@);
        let ghost prm = self.params;
        let ghost n = self.bubbles@.len();
        let sequential = matches!(self.backend, Backend::Sequential);
        if sequential {
            forcelayout(&mut self.bubbles, &mut self.edges, &self.params);
            proof {
                lemma_step_preserves_masses(ns0, es0, prm);
                assert forall|v: int|
                    0 <= v < n implies (#[trigger] nodes_view(self.bubbles@)[v]).m > 0 by {
                    assert(nodes_view(self.bubbles@)[v] == step_nodes(ns0, es0, prm)[v]);
                    assert(step_nodes(ns0, es0, prm)[v].m == ns0[v].m);
                    assert(ns0[v].m > 0);
                }
                assert(masses_ok(nodes_view(self.bubbles@)));
                assert forall|e: int|
                    0 <= e < es0.len() implies 0 <= (#[trigger] edges_view(self.edges@)[e]).from
                    < n && 0 <= edges_view(self.edges@)[e].to < n by {
                    assert(edges_view(self.edges@)[e] == self.edges@[e]@);
                    assert(self.edges@[e]@ == step_edge(ns0, es0, prm, e));
                    assert(es0[e].from < n && es0[e].to < n);
                }
                assert(edges_ok(edges_view(self.edges@), n));
                assert(edges_view(self.edges@) =~= Seq::new(
                    es0.len(),
                    |e: int| step_edge(ns0, es0, prm, e),
                ));
            }
        } else {
            if self.device.is_none() || self.device_stale {
                let d = create_forcelayout_instance(&self.bubbles, &self.edges, self.params);
                self.device = Option::Some(d);
                self.device_stale = false;
            }
            record_pull_forces(&self.bubbles, &mut self.edges, self.params.k_pull);
            self.phase = StepPhase::StepInFlight;
            let mut d = self.device.take().unwrap();
            d.write_node_buffer(pack_bubbles(&self.bubbles));
            let ghost dev_es = d.edge_endpoints();
            let result = d.compute();
            self.device = Option::Some(d);
            proof {
                assert(entities_view(result@) == step_nodes(ns0, dev_es, prm));
                lemma_step_nodes_endpoints_only(ns0, dev_es, es0, prm);
                assert(entities_view(result@) == step_nodes(ns0, es0, prm));
                lemma_step_preserves_masses(ns0, es0, prm);
                assert(entities_view(result@).len() == result@.len());
                assert(result@.len() == n);
            }
            unpack_result(&mut self.bubbles, &result);
            proof {
                assert(nodes_view(self.bubbles@) == step_nodes(ns0, es0, prm));
                assert forall|v: int|
                    0 <= v < n implies (#[trigger] nodes_view(self.bubbles@)[v]).m > 0 by {
                    assert(step_nodes(ns0, es0, prm)[v].m == ns0[v].m);
                    assert(ns0[v].m > 0);
                }
                assert(masses_ok(nodes_view(self.bubbles@)));
                assert forall|e: int|
                    0 <= e < es0.len() implies 0 <= (#[trigger] edges_view(self.edges@)[e]).from
                    < n && 0 <= edges_view(self.edges@)[e].to < n by {
                    assert(edges_view(self.edges@)[e] == self.edges@[e]@);
                    assert(es0[e].from < n && es0[e].to < n);
                }
                assert(edges_ok(edges_view(self.edges@), n));
            }
            refresh_edge_caches(&self.bubbles, &mut self.edges);
            self.phase = StepPhase::Idle;
            proof {
                assert forall|e: int|
                    0 <= e < es0.len() implies (#[trigger] edges_view(self.edges@)[e]) == step_edge(
                    ns0,
                    es0,
                    prm,
                    e,
                ) by {
                    let ed = self.edges@[e]@;
                    assert(edges_view(self.edges@)[e] == ed);
                    let f = es0[e].from;
                    let t = es0[e].to;
                    assert(0 <= f < n && 0 <= t < n);
                    assert(ed.pull_force == pull_magnitude(prm.k_pull as int, ns0[f].p, ns0[t].p));
                    assert(ed.position_from == self.bubbles@[f]@.p);
                    assert(ed.position_to == self.bubbles@[t]@.p);
                    assert(self.bubbles@[f]@.p == nodes_view(self.bubbles@)[f].p);
                    assert(self.bubbles@[t]@.p == nodes_view(self.bubbles@)[t].p);
                }
                assert(edges_view(self.edges@) =~= Seq::new(
                    es0.len(),
                    |e: int| step_edge(ns0, es0, prm, e),
                ));
                assert forall|e: int|
                    0 <= e < es0.len() implies (
                    #[trigger] (self.device->Some_0).edge_endpoints()[e]).from
                    == self.edges@[e]@.from && (self.device->Some_0).edge_endpoints()[e].to
                    == self.edges@[e]@.to by {
                    assert(self.edges@[e]@.from == es0[e].from && self.edges@[e]@.to == es0[e].to);
                }
            }
        }
        proof {
            assert(final(self).edge_states() =~= Seq::new(
                es0.len(),
                |e: int| step_edge(ns0, es0, prm, e),
            ));
        }
    }
}

} // verus!
