//! The output interval map, backed by an outside interval-tree crate.
//!
//! The tree itself is opaque to the proofs; `map_entries` names what it
//! holds, and the two wrappers state how building and querying relate to
//! that contents.

use vstd::multiset::Multiset;
use vstd::prelude::*;

use crate::model::AddrRange;
use crate::pc2frames::{Element, ElementSpec, Frame};

verus! {

#[verifier::external_type_specification]
#[verifier::external_body]
#[verifier::reject_recursive_types(K)]
#[verifier::reject_recursive_types(V)]
pub struct ExIntervalTree<K, V>(intervaltree::IntervalTree<K, V>);

/// The queryable output of the pass: address ranges to frames.
pub type FrameMap = intervaltree::IntervalTree<u64, Frame>;

/// What a frame map holds: the multiset of its (range, frame) elements.
pub uninterp spec fn map_entries(t: FrameMap) -> Multiset<ElementSpec>;

/// Relies on intervaltree::IntervalTree's FromIterator impl: the tree is
/// built from, and holds exactly, the given elements.
#[verifier::external_body]
pub fn build_map(elements: Vec<Element>) -> (r: FrameMap)
    ensures
        map_entries(r) == elements@.map_values(|e: Element| e@).to_multiset(),
{
    elements
        .into_iter()
        .map(|e: Element| intervaltree::Element { range: e.range.lo..e.range.hi, value: e.frame })
        .collect()
}

/// Relies on intervaltree::IntervalTree::query_point: it yields exactly
/// the elements whose half-open range contains the point, in no
/// particular order.
#[verifier::external_body]
pub fn query_point(map: &FrameMap, pc: u64) -> (r: Vec<Element>)
    ensures
        r@.map_values(|e: Element| e@).to_multiset() == map_entries(*map).filter(
            |e: ElementSpec| e.range.lo <= pc < e.range.hi,
        ),
{
    map.query_point(pc)
        .map(|e| Element {
            range: AddrRange { lo: e.range.start, hi: e.range.end },
            frame: e.value.clone(),
        })
        .collect()
}

} // verus!
