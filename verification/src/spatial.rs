//! A point index: which of the indexed points lie within a radius of a position.

use vstd::prelude::*;
use vstd::multiset::Multiset;
use crate::point::{within_radius, Point};

verus! {

/// An indexed point: where something is, and which thing it is.
#[derive(Debug, Clone, Copy, PartialEq, Eq, Structural, Hash)]
pub struct Collidable {
    pub pos: Point,
    pub entity: u64,
}

impl Collidable {
    /// The coordinate along axis `k`: `x` for 0, `y` for every other axis.
    pub fn at(&self, k: usize) -> (c: i32)
        ensures
            c == if k == 0 { self.pos.x } else { self.pos.y },
    {
        if k == 0 {
            return self.pos.x;
        }
        self.pos.y
    }
}

/// A k-d tree over the points it was last built from.
///
/// The tree is a `kd_tree::KdTreeN` and opaque to Verus: what it holds is known only as
/// `indexed_points`, and only from what `build_tree` and `tree_within_radius` state.
/// Coordinates are held as 64-bit integers, so that no distance computed inside the tree
/// can overflow.
#[verifier::external_body]
pub struct SpatialIndex {
    tree: kd_tree::KdTreeN<([i64; 2], u64), typenum::U2>,
}

/// The points that the tree of an index holds, each as often as the tree holds it.
pub uninterp spec fn indexed_points(index: SpatialIndex) -> Multiset<Collidable>;

/// The test that selects the points lying strictly less than `radius` from `center`.
pub open spec fn hit_by(center: Point, radius: i32) -> spec_fn(Collidable) -> bool {
    |c: Collidable| within_radius(c.pos, center, radius as int)
}

/// `kd_tree::KdTree::build`: the tree holds the given points, reordered, none added and
/// none lost.
#[verifier::external_body]
fn build_tree(points: &Vec<Collidable>) -> (index: SpatialIndex)
    ensures
        indexed_points(index) == points@.to_multiset(),
{
    let items: Vec<([i64; 2], u64)> =
        points.iter().map(|c| ([c.pos.x as i64, c.pos.y as i64], c.entity)).collect();
    SpatialIndex { tree: kd_tree::KdTree::build(items) }
}

/// `kd_tree::KdSlice::within_radius`: the points of the tree whose squared distance to
/// `center` is less than the squared radius, in no particular order, each as often as the
/// tree holds it. A negative radius selects nothing.
#[verifier::external_body]
fn tree_within_radius(index: &SpatialIndex, center: Point, radius: i32) -> (hits: Vec<Collidable>)
    ensures
        hits@.to_multiset() == indexed_points(*index).filter(hit_by(center, radius)),
{
    let found = index.tree.within_radius(&[center.x as i64, center.y as i64], radius as i64);
    found
        .into_iter()
        .map(|item| {
            let pos = Point { x: item.0[0] as i32, y: item.0[1] as i32 };
            Collidable { pos, entity: item.1 }
        })
        .collect()
}

impl View for SpatialIndex {
    type V = Multiset<Collidable>;

    open spec fn view(&self) -> Multiset<Collidable> {
        indexed_points(*self)
    }
}

impl SpatialIndex {
    /// An index that holds nothing.
    pub fn new() -> (index: SpatialIndex)
        ensures
            index@ == Multiset::<Collidable>::empty(),
    {
        let points: Vec<Collidable> = Vec::new();
        let index = build_tree(&points);
        assert(points@.to_multiset() =~= Multiset::<Collidable>::empty()) by {
            broadcast use vstd::seq_lib::group_to_multiset_ensures;
        }
        index
    }

    /// Replaces what the index holds by `points`.
    pub fn rebuild(&mut self, points: &Vec<Collidable>)
        ensures
            final(self)@ == points@.to_multiset(),
    {
        *self = build_tree(points);
    }

    /// All indexed points that lie strictly less than `radius` from `point`, in no
    /// particular order. An empty index gives an empty list.
    pub fn query_within_radius(&self, point: Point, radius: i32) -> (hits: Vec<Collidable>)
        ensures
            hits@.to_multiset() == self@.filter(hit_by(point, radius)),
            forall|i: int|
                0 <= i < hits.len() ==> self@.contains(#[trigger] hits[i]) && within_radius(
                    hits[i].pos,
                    point,
                    radius as int,
                ),
            forall|c: Collidable|
                self@.contains(c) && within_radius(c.pos, point, radius as int)
                    ==> hits@.contains(c),
    {
        let hits = tree_within_radius(self, point, radius);
        proof {
            broadcast use vstd::seq_lib::group_to_multiset_ensures;
            hits@.to_multiset_ensures();
            assert forall|i: int| 0 <= i < hits.len() implies self@.contains(#[trigger] hits[i])
                && within_radius(hits[i].pos, point, radius as int) by {
                assert(hits@.contains(hits[i]));
                assert(hits@.to_multiset().count(hits[i]) > 0);
            }
            assert forall|c: Collidable|
                self@.contains(c) && within_radius(c.pos, point, radius as int)
                implies hits@.contains(c) by {
                assert(hit_by(point, radius)(c));
                assert(self@.filter(hit_by(point, radius)).count(c) > 0);
            }
        }
        hits
    }
}

} // verus!
