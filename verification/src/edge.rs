//! An edge: a directed pull relation between two bubbles, held by index.

use vstd::prelude::*;
use crate::math::V2;
use crate::math::Vector2;
use crate::math::vzero;

verus! {

/// Ghost state of one edge.
pub struct EdgeState {
    pub from: int,
    pub to: int,
    pub pull_force: int,
    pub position_from: V2,
    pub position_to: V2,
}

/// A directed pull relation between the bubbles at indices `from` and `to`.
///
/// `pull_force` is an output-only diagnostic, recomputed every step; the two
/// cached endpoint positions are refreshed every step for consumers that do
/// not want to dereference bubbles themselves.
#[derive(Clone, Copy, Debug)]
pub struct Edge {
    pub position_from: Vector2,
    pub position_to: Vector2,
    pub from: usize,
    pub to: usize,
    pub pull_force: i64,
}

impl View for Edge {
    type V = EdgeState;

    open spec fn view(&self) -> EdgeState {
        EdgeState {
            from: self.from as int,
            to: self.to as int,
            pull_force: self.pull_force as int,
            position_from: self.position_from@,
            position_to: self.position_to@,
        }
    }
}

impl Edge {
    /// An edge between two bubble indices, with no force recorded yet.
    pub fn new(from: usize, to: usize) -> (r: Self)
        ensures
            r@.from == from as int,
            r@.to == to as int,
            r@.pull_force == 0,
            r@.position_from == vzero(),
            r@.position_to == vzero(),
    {
        Edge {
            position_from: Vector2::new(),
            position_to: Vector2::new(),
            from,
            to,
            pull_force: 0,
        }
    }
}

} // verus!
