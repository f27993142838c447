//! Dataset creation: randomly placed bubbles at rest, and star-shaped edge
//! groups that pull each group around its first member.

use vstd::prelude::*;
use crate::bubble::Bubble;
use crate::edge::Edge;
use crate::fixed::SCALE;
use crate::forcelayout::edges_ok;
use crate::forcelayout::edges_view;
use crate::forcelayout::masses_ok;
use crate::forcelayout::nodes_view;
use crate::math::Vector2;
use crate::math::vzero;

verus! {

/// Relies on rand::random: one random 32-bit value. Nothing is promised of
/// which value comes back; callers state only what holds of every outcome.
#[verifier::external_body]
fn random_u32() -> u32 {
    rand::random::<u32>()
}

/// A fixed-point coordinate in [-50, 50) units, from one random draw.
fn random_coord() -> (r: i64)
    ensures
        -50 * SCALE <= r < 50 * SCALE,
{
    let raw = random_u32();
    let m = (raw as u64) % 100_000_000u64;
    (m as i64) - 50_000_000
}

/// A random starting position.
fn get_random_vec2() -> (r: Vector2)
    ensures
        -50 * SCALE <= r@.x < 50 * SCALE,
        -50 * SCALE <= r@.y < 50 * SCALE,
{
    Vector2 { x: random_coord(), y: random_coord() }
}

/// A random mass in [1, 25) units.
fn random_size() -> (r: i64)
    ensures
        SCALE <= r < 25 * SCALE,
{
    let raw = random_u32();
    let m = (raw as u64) % 24_000_000u64;
    (m as i64) + 1_000_000
}

/// Create `bubble_count` bubbles at rest at random positions with random
/// masses in [1, 25) units.
pub fn create_bubbles(bubble_count: u64) -> (r: Vec<Bubble>)
    requires
        bubble_count <= u32::MAX,
    ensures
        r@.len() == bubble_count,
        masses_ok(nodes_view(r@)),
        forall|i: int|
            0 <= i < r@.len() ==> {
                let b = (#[trigger] r@[i])@;
                &&& b.v == vzero()
                &&& b.a == vzero()
                &&& SCALE <= b.m < 25 * SCALE
                &&& -50 * SCALE <= b.p.x < 50 * SCALE
                &&& -50 * SCALE <= b.p.y < 50 * SCALE
            },
{
    let mut bubbles: Vec<Bubble> = Vec::new();
    let mut i: u64 = 0;
    while i < bubble_count
        invariant
            i <= bubble_count,
            bubble_count <= u32::MAX,
            bubbles@.len() == i,
            forall|v: int|
                0 <= v < bubbles@.len() ==> {
                    let b = (#[trigger] bubbles@[v])@;
                    &&& b.v == vzero()
                    &&& b.a == vzero()
                    &&& SCALE <= b.m < 25 * SCALE
                    &&& -50 * SCALE <= b.p.x < 50 * SCALE
                    &&& -50 * SCALE <= b.p.y < 50 * SCALE
                },
        decreases bubble_count - i,
    {
        let size = random_size();
        let position = get_random_vec2();
        bubbles.push(Bubble::new(size, position));
        i += 1;
    }
    proof {
        assert forall|v: int|
            0 <= v < nodes_view(bubbles@).len() implies (#[trigger] nodes_view(bubbles@)[v]).m
            > 0 by {
            assert(bubbles@[v]@.m >= SCALE);
        }
    }
    bubbles
}

/// The star edges of one group: group `g` starts at index `g * gs`, and
/// each of its later members is pulled toward the group's first member.
pub open spec fn group_edges(n: int, gs: int, g: int) -> Seq<(int, int)> {
    let start = g * gs;
    let cnt = if n - start < gs {
        n - start
    } else {
        gs
    };
    Seq::new((cnt - 1) as nat, |j: int| (start, start + j + 1))
}

/// The star edges of the first `g` groups, in group order.
pub open spec fn grouped_edges_upto(n: int, gs: int, g: int) -> Seq<(int, int)>
    decreases g,
{
    if g <= 0 {
        Seq::empty()
    } else {
        grouped_edges_upto(n, gs, g - 1) + group_edges(n, gs, g - 1)
    }
}

/// All the star edges over `n` nodes split into groups of `gs`.
pub open spec fn grouped_edges(n: int, gs: int) -> Seq<(int, int)> {
    grouped_edges_upto(n, gs, (n + gs - 1) / gs)
}

/// The edge records carry exactly these endpoint pairs, with no force
/// recorded yet.
pub open spec fn edges_match(es: Seq<Edge>, pairs: Seq<(int, int)>) -> bool {
    &&& es.len() == pairs.len()
    &&& forall|e: int|
        0 <= e < es.len() ==> (#[trigger] es[e])@.from == pairs[e].0 && es[e]@.to == pairs[e].1
            && es[e]@.pull_force == 0
}

/// Create the grouped star edges over `bubble_count` bubbles: the bubbles
/// are split into consecutive groups of `group_size`, and inside each
/// group every later member is pulled toward the group's first.
pub fn create_edges(bubble_count: usize, group_size: usize) -> (r: Vec<Edge>)
    requires
        group_size >= 1,
    ensures
        edges_match(r@, grouped_edges(bubble_count as int, group_size as int)),
        edges_ok(edges_view(r@), bubble_count as nat),
{
    let n = bubble_count;
    let gs = group_size;
    let mut edges: Vec<Edge> = Vec::new();
    let mut start: usize = 0;
    let ghost mut g: int = 0;
    while start < n
        invariant
            gs >= 1,
            g >= 0,
            start == g * gs || (start == n && g * gs >= n),
            g == 0 || (g - 1) * gs < n,
            start <= n,
            edges_match(edges@, grouped_edges_upto(n as int, gs as int, g)),
            forall|e: int|
                0 <= e < edges@.len() ==> 0 <= (#[trigger] edges@[e])@.from < n && 0 <= edges@[e]@.to
                    < n,
        decreases n - start,
    {
        proof {
            assert(start == g * gs);
        }
        let rem = n - start;
        let cnt = if rem < gs {
            rem
        } else {
            gs
        };
        let ghost before = edges@;
        let mut j: usize = 1;
        while j < cnt
            invariant
                1 <= j <= cnt || (cnt == 0 && j == 1),
                cnt <= rem,
                rem == n - start,
                start < n,
                cnt >= 1,
                edges@.len() == before.len() + j - 1,
                edges@.subrange(0, before.len() as int) == before,
                forall|t: int|
                    0 <= t < j - 1 ==> {
                        let ed = (#[trigger] edges@[before.len() + t])@;
                        ed.from == start as int && ed.to == start as int + t + 1 && ed.pull_force
                            == 0
                    },
                forall|e: int|
                    0 <= e < before.len() ==> (#[trigger] edges@[e]) == before[e],
            decreases cnt - j,
        {
            edges.push(Edge::new(start, start + j));
            proof {
                assert(edges@.subrange(0, before.len() as int) =~= before);
            }
            j += 1;
        }
        proof {
            let ni = n as int;
            let gsi = gs as int;
            let cnt_s = if ni - g * gsi < gsi {
                ni - g * gsi
            } else {
                gsi
            };
            assert(cnt == cnt_s);
            assert(grouped_edges_upto(ni, gsi, g + 1) == grouped_edges_upto(ni, gsi, g)
                + group_edges(ni, gsi, g));
            assert(group_edges(ni, gsi, g).len() == cnt - 1);
            assert forall|e: int|
                0 <= e < edges@.len() implies (#[trigger] edges@[e])@.from == grouped_edges_upto(
                ni,
                gsi,
                g + 1,
            )[e].0 && edges@[e]@.to == grouped_edges_upto(ni, gsi, g + 1)[e].1
                && edges@[e]@.pull_force == 0 by {
                if e < before.len() {
                    assert(edges@[e] == before[e]);
                    assert(before[e]@.from == grouped_edges_upto(ni, gsi, g)[e].0);
                    assert(grouped_edges_upto(ni, gsi, g + 1)[e] == grouped_edges_upto(
                        ni,
                        gsi,
                        g,
                    )[e]);
                } else {
                    let t = e - before.len();
                    assert(edges@[before.len() + t]@.from == start as int && edges@[before.len()
                        + t]@.to == start as int + t + 1 && edges@[before.len() + t]@.pull_force
                        == 0);
                    assert(grouped_edges_upto(ni, gsi, g + 1)[e] == group_edges(ni, gsi, g)[t]);
                    assert(group_edges(ni, gsi, g)[t] == (g * gsi, g * gsi + t + 1));
                }
            }
            assert(edges@.len() == grouped_edges_upto(ni, gsi, g + 1).len());
            assert((g + 1) * gsi == g * gsi + gsi) by (nonlinear_arith);
            g = g + 1;
        }
        start = start + cnt;
        proof {
            assert((g - 1) * gs == g * gs - gs) by (nonlinear_arith);
            if cnt < gs {
                assert(start == n);
                assert(g * gs >= n);
            } else {
                assert(start == g * gs);
            }
        }
    }
    proof {
        let ni = n as int;
        let gsi = gs as int;
        if g == 0 {
            assert(n == 0);
            assert((ni + gsi - 1) / gsi == 0) by {
                vstd::arithmetic::div_mod::lemma_basic_div(gsi - 1, gsi);
            }
        } else {
            assert(g * gsi >= ni);
            assert((g - 1) * gsi < ni);
            let d = g * gsi - ni;
            assert(d < gsi) by {
                assert((g - 1) * gsi == g * gsi - gsi) by (nonlinear_arith);
            }
            assert(ni + gsi - 1 == g * gsi + (gsi - 1 - d));
            vstd::arithmetic::div_mod::lemma_fundamental_div_mod_converse(
                ni + gsi - 1,
                gsi,
                g,
                gsi - 1 - d,
            );
            assert((ni + gsi - 1) / gsi == g);
        }
        assert(edges_match(edges@, grouped_edges(ni, gsi)));
        assert forall|e: int|
            0 <= e < edges_view(edges@).len() implies 0 <= (#[trigger] edges_view(edges@)[e]).from
            < n && 0 <= edges_view(edges@)[e].to < n by {
            assert(edges_view(edges@)[e] == edges@[e]@);
        }
    }
    edges
}

} // verus!
