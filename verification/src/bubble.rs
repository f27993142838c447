//! A bubble: one point mass of the simulation.

use vstd::prelude::*;
use crate::math::V2;
use crate::math::Vector2;
use crate::math::vzero;
use crate::physics::NodeState;
use crate::physics::Physics;

verus! {

/// A point mass. `size` is its mass (immutable in effect: no engine step
/// changes it); position, velocity, and acceleration are advanced every
/// step.
#[derive(Clone, Copy, Debug)]
pub struct Bubble {
    pub position: Vector2,
    pub size: i64,
    pub v: Vector2,
    pub a: Vector2,
}

impl View for Bubble {
    type V = NodeState;

    open spec fn view(&self) -> NodeState {
        NodeState { m: self.size as int, p: self.position@, v: self.v@, a: self.a@ }
    }
}

impl Bubble {
    /// A bubble at rest at `position` with mass `size`.
    pub fn new(size: i64, position: Vector2) -> (r: Self)
        ensures
            r@.m == size as int,
            r@.p == position@,
            r@.v == vzero(),
            r@.a == vzero(),
    {
        Bubble { position, size, v: Vector2::new(), a: Vector2::new() }
    }
}

impl Physics for Bubble {
    open spec fn m_spec(&self) -> int {
        self.size as int
    }

    open spec fn p_spec(&self) -> V2 {
        self.position@
    }

    open spec fn v_spec(&self) -> V2 {
        self.v@
    }

    open spec fn a_spec(&self) -> V2 {
        self.a@
    }

    fn get_m(&self) -> (r: i64) {
        self.size
    }

    fn get_v(&self) -> (r: &Vector2) {
        &self.v
    }

    fn set_v(&mut self, v: &Vector2) {
        Vector2::assign(&mut self.v, v);
    }

    fn get_p(&self) -> (r: &Vector2) {
        &self.position
    }

    fn set_p(&mut self, p: &Vector2) {
        Vector2::assign(&mut self.position, p);
    }

    fn get_a(&self) -> (r: &Vector2) {
        &self.a
    }

    fn set_a(&mut self, a: &Vector2) {
        Vector2::assign(&mut self.a, a);
    }
}

} // verus!
