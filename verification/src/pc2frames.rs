//! The walk controller: drives the depth-first traversal of each unit,
//! keeps the current tree depth and the "inside a live function" state,
//! and collects the (address range, frame) elements of the pass.
//!
//! The spec functions below form a functional model of the whole pass:
//! `walk_step` is one traversal step, `state_at` the walk state after a
//! prefix of a unit's steps, `unit_elements` a unit's outcome, and
//! `pass_elements` the outcome over all units.  The executable walker is
//! proved to return exactly that outcome.

use vstd::prelude::*;

use crate::demangle::{demangle, frame_name};
use crate::extract::{InlinedSubroutine, Subprogram, spec_inlined, spec_subprogram};
use crate::framemap::{FrameMap, build_map, map_entries};
use crate::model::{AddrRange, Error, Node, Span, Step, Tag, Unit, UnitSpec};

verus! {

/// One output frame: a demangled function name and the tree depth at
/// which its definition (or inlining instance) was met.
#[derive(Clone, Debug, PartialEq)]
pub struct Frame {
    /// Demangled function name, without its disambiguation hash.
    pub name: String,
    /// Depth in the debug-information tree.
    pub depth: isize,
}

/// Spec view of a frame.
pub struct FrameSpec {
    pub name: Seq<char>,
    pub depth: int,
}

impl View for Frame {
    type V = FrameSpec;

    open spec fn view(&self) -> FrameSpec {
        FrameSpec { name: self.name@, depth: self.depth as int }
    }
}

/// One element of the output: an address range and the frame active on it.
#[derive(Clone, Debug, PartialEq)]
pub struct Element {
    pub range: AddrRange,
    pub frame: Frame,
}

/// Spec view of an element.
pub struct ElementSpec {
    pub range: AddrRange,
    pub frame: FrameSpec,
}

impl View for Element {
    type V = ElementSpec;

    open spec fn view(&self) -> ElementSpec {
        ElementSpec { range: self.range, frame: self.frame@ }
    }
}

// ---------------------------------------------------------------------------
// The functional model of the walk.
// ---------------------------------------------------------------------------

/// The state carried across traversal steps: the current tree depth, the
/// depth at which the innermost live function began (`None` outside every
/// live function), and the elements emitted so far.
pub struct WalkState {
    pub depth: int,
    pub active: Option<int>,
    pub elems: Seq<ElementSpec>,
}

pub open spec fn walk_init() -> WalkState {
    WalkState { depth: 0, active: None, elems: Seq::empty() }
}

/// Leaving a live function's subtree: once the walk reaches a node at or
/// above the depth where the function began, it is no longer inside it.
pub open spec fn reset_active(active: Option<int>, depth: int) -> Option<int> {
    match active {
        Some(d) => if depth <= d {
            None
        } else {
            Some(d)
        },
        None => None,
    }
}

/// The set of live function names.
pub open spec fn live_set(ls: Seq<String>) -> Set<Seq<char>> {
    Set::new(|s: Seq<char>| exists|i: int| 0 <= i < ls.len() && (#[trigger] ls[i])@ == s)
}

/// One traversal step of the walk over unit `u`.
pub open spec fn walk_step(u: UnitSpec, live: Set<Seq<char>>, st: WalkState, step: Step) -> Result<
    WalkState,
    Error,
> {
    let depth = st.depth + step.delta;
    let active = reset_active(st.active, depth);
    if step.node >= u.nodes.len() {
        Ok(WalkState { depth, active, elems: st.elems })
    } else {
        let node = u.nodes[step.node as int];
        match node.tag {
            Tag::Subprogram => match spec_subprogram(node, step.node, depth) {
                Err(e) => Err(e),
                Ok(None) => Ok(WalkState { depth, active, elems: st.elems }),
                Ok(Some(sub)) => match sub.span {
                    Span::Pc(r) => if live.contains(sub.name) {
                        if active is Some {
                            Err(Error::NestedLiveSubprogram)
                        } else {
                            Ok(WalkState {
                                depth,
                                active: Some(depth),
                                elems: st.elems.push(ElementSpec {
                                    range: r,
                                    frame: FrameSpec { name: frame_name(sub.name), depth },
                                }),
                            })
                        }
                    } else {
                        Ok(WalkState { depth, active, elems: st.elems })
                    },
                    Span::Inlined => Ok(WalkState { depth, active, elems: st.elems }),
                },
            },
            Tag::InlinedSubroutine => match active {
                Some(_) => match spec_inlined(u.nodes, node, step.node, depth) {
                    Err(e) => Err(e),
                    Ok(isub) => Ok(WalkState {
                        depth,
                        active,
                        elems: st.elems.push(ElementSpec {
                            range: isub.pc,
                            frame: FrameSpec { name: frame_name(isub.origin.name), depth },
                        }),
                    }),
                },
                None => Ok(WalkState { depth, active, elems: st.elems }),
            },
            Tag::Other => Ok(WalkState { depth, active, elems: st.elems }),
        }
    }
}

/// The walk state after the first `i` steps of unit `u`.
pub open spec fn state_at(u: UnitSpec, live: Set<Seq<char>>, i: int) -> Result<WalkState, Error>
    decreases i,
{
    if i <= 0 {
        Ok(walk_init())
    } else {
        match state_at(u, live, i - 1) {
            Err(e) => Err(e),
            Ok(st) => walk_step(u, live, st, u.steps[i - 1]),
        }
    }
}

/// The ordered element list one unit contributes, or the error on which
/// the pass aborts.  A unit without a root node is malformed.
pub open spec fn unit_elements(u: UnitSpec, live: Set<Seq<char>>) -> Result<Seq<ElementSpec>, Error> {
    if u.nodes.len() == 0 {
        Err(Error::EmptyDebugInfo)
    } else {
        match state_at(u, live, u.steps.len() as int) {
            Err(e) => Err(e),
            Ok(st) => Ok(st.elems),
        }
    }
}

pub open spec fn units_view(us: Seq<Unit>) -> Seq<UnitSpec> {
    us.map_values(|u: Unit| u@)
}

/// The concatenated elements of the first `i` units.
pub open spec fn elements_upto(us: Seq<UnitSpec>, live: Set<Seq<char>>, i: int) -> Result<
    Seq<ElementSpec>,
    Error,
>
    decreases i,
{
    if i <= 0 {
        Ok(Seq::empty())
    } else {
        match elements_upto(us, live, i - 1) {
            Err(e) => Err(e),
            Ok(acc) => match unit_elements(us[i - 1], live) {
                Err(e) => Err(e),
                Ok(es) => Ok(acc + es),
            },
        }
    }
}

/// The full ordered element list of the pass over all units.
pub open spec fn pass_elements(us: Seq<UnitSpec>, live: Set<Seq<char>>) -> Result<
    Seq<ElementSpec>,
    Error,
> {
    elements_upto(us, live, us.len() as int)
}

/// Step `i` of the walk over `u` emits element `e`: the step meets either
/// a live function definition whose declared range and demangled name `e`
/// holds, or an inline call site inside a live function's subtree whose
/// resolved range and origin name `e` holds.  No other step adds to the
/// output.
pub open spec fn emits_at(u: UnitSpec, live: Set<Seq<char>>, i: int, e: ElementSpec) -> bool {
    &&& 0 <= i < u.steps.len()
    &&& state_at(u, live, i) is Ok
    &&& ({
        let st = state_at(u, live, i)->Ok_0;
        let step = u.steps[i];
        let depth = st.depth + step.delta;
        &&& step.node < u.nodes.len()
        &&& ({
            let node = u.nodes[step.node as int];
            ||| ({
                &&& node.tag == Tag::Subprogram
                &&& spec_subprogram(node, step.node, depth) matches Ok(Some(sub))
                &&& live.contains(sub.name)
                &&& sub.span matches Span::Pc(r)
                &&& e == (ElementSpec {
                    range: r,
                    frame: FrameSpec { name: frame_name(sub.name), depth },
                })
            })
            ||| ({
                &&& node.tag == Tag::InlinedSubroutine
                &&& reset_active(st.active, depth) is Some
                &&& spec_inlined(u.nodes, node, step.node, depth) matches Ok(isub)
                &&& e == (ElementSpec {
                    range: isub.pc,
                    frame: FrameSpec { name: frame_name(isub.origin.name), depth },
                })
            })
        })
    })
}

// ---------------------------------------------------------------------------
// Well-formedness of a unit, as the traversal model assumes it.
// ---------------------------------------------------------------------------

/// The tree depth before step `i`, from the deltas of the steps before it.
pub open spec fn depth_at(steps: Seq<Step>, i: int) -> int
    decreases i,
{
    if i <= 0 {
        0
    } else {
        depth_at(steps, i - 1) + steps[i - 1].delta
    }
}

/// A well-formed unit: every step visits a node of the unit's own arena,
/// and the running depth stays representable.
pub open spec fn wf_unit(u: UnitSpec) -> bool {
    &&& forall|i: int|
        0 <= i < u.steps.len() ==> (#[trigger] u.steps[i]).node < u.nodes.len()
    &&& forall|i: int|
        0 <= i < u.steps.len() ==> isize::MIN <= #[trigger] depth_at(u.steps, i + 1) <= isize::MAX
}

// ---------------------------------------------------------------------------
// Error persistence: once a step fails, the whole walk fails with it.
// ---------------------------------------------------------------------------

pub proof fn lemma_state_err_persists(u: UnitSpec, live: Set<Seq<char>>, i: int, j: int)
    requires
        0 <= i <= j,
        state_at(u, live, i) is Err,
    ensures
        state_at(u, live, j) == state_at(u, live, i),
    decreases j - i,
{
    if i < j {
        lemma_state_err_persists(u, live, i, j - 1);
    }
}

pub proof fn lemma_upto_err_persists(us: Seq<UnitSpec>, live: Set<Seq<char>>, i: int, j: int)
    requires
        0 <= i <= j,
        elements_upto(us, live, i) is Err,
    ensures
        elements_upto(us, live, j) == elements_upto(us, live, i),
    decreases j - i,
{
    if i < j {
        lemma_upto_err_persists(us, live, i, j - 1);
    }
}

// ---------------------------------------------------------------------------
// The executable walker.
// ---------------------------------------------------------------------------

/// Spec view of the executable walker's `active` variable.
pub open spec fn opt_depth_view(o: Option<isize>) -> Option<int> {
    match o {
        Some(d) => Some(d as int),
        None => None,
    }
}

/// Is `name` in the live-function set?  Membership is exact string
/// equality.
fn contains_name(live: &Vec<String>, name: &String) -> (r: bool)
    ensures
        r == live_set(live@).contains(name@),
{
    let mut i: usize = 0;
    while i < live.len()
        invariant
            i <= live.len(),
            forall|j: int| 0 <= j < i ==> (#[trigger] live@[j])@ != name@,
        decreases live.len() - i,
    {
        if live[i].eq(name) {
            return true;
        }
        i = i + 1;
    }
    false
}

/// Walks one unit and returns the elements it contributes.
pub fn process_unit(unit: &Unit, live_functions: &Vec<String>) -> (r: Result<Vec<Element>, Error>)
    requires
        wf_unit(unit@),
    ensures
        ({
            let out = unit_elements(unit@, live_set(live_functions@));
            match r {
                Ok(v) => out == Ok::<Seq<ElementSpec>, Error>(v@.map_values(|e: Element| e@)),
                Err(e) => out == Err::<Seq<ElementSpec>, Error>(e),
            }
        }),
{
    let ghost lv = live_set(live_functions@);
    if unit.nodes.len() == 0 {
        return Err(Error::EmptyDebugInfo);
    }
    let mut elements: Vec<Element> = Vec::new();
    proof {
        assert(elements@.map_values(|e: Element| e@) =~= Seq::<ElementSpec>::empty());
    }
    let mut depth: isize = 0;
    let mut active: Option<isize> = None;
    let mut i: usize = 0;
    while i < unit.steps.len()
        invariant
            wf_unit(unit@),
            unit@.nodes.len() > 0,
            unit@.steps.len() == unit.steps.len(),
            unit@.nodes.len() == unit.nodes.len(),
            unit@.steps == unit.steps@,
            forall|j: int| 0 <= j < unit.nodes.len() ==> unit@.nodes[j] == (#[trigger] unit.nodes@[j])@,
            lv == live_set(live_functions@),
            i <= unit.steps.len(),
            depth as int == depth_at(unit@.steps, i as int),
            state_at(unit@, lv, i as int) == Ok::<WalkState, Error>(
                WalkState {
                    depth: depth as int,
                    active: opt_depth_view(active),
                    elems: elements@.map_values(|e: Element| e@),
                },
            ),
        decreases unit.steps.len() - i,
    {
        let ghost st0 = WalkState {
            depth: depth as int,
            active: opt_depth_view(active),
            elems: elements@.map_values(|e: Element| e@),
        };
        let step = unit.steps[i];
        proof {
            assert(unit@.steps[i as int] == step);
            assert(depth_at(unit@.steps, i as int + 1) == depth as int + step.delta as int);
            assert(isize::MIN <= depth_at(unit@.steps, i as int + 1) <= isize::MAX);
        }
        let d2 = depth + step.delta;
        let mut act = active;
        if let Some(d) = act {
            if d2 <= d {
                act = None;
            }
        }
        proof {
            assert(opt_depth_view(act) == reset_active(st0.active, d2 as int));
        }
        let node = &unit.nodes[step.node];
        proof {
            assert(unit@.nodes[step.node as int] == node@);
        }
        match node.tag {
            Tag::Subprogram => {
                match Subprogram::from_die(node, step.node, d2) {
                    Err(e) => {
                        proof {
                            assert(state_at(unit@, lv, i as int + 1) == Err::<WalkState, Error>(e));
                            lemma_state_err_persists(unit@, lv, i as int + 1, unit@.steps.len() as int);
                        }
                        return Err(e);
                    },
                    Ok(None) => {},
                    Ok(Some(sub)) => {
                        match sub.span {
                            Span::Pc(r) => {
                                if contains_name(live_functions, &sub.name) {
                                    if act.is_some() {
                                        proof {
                                            assert(state_at(unit@, lv, i as int + 1)
                                                == Err::<WalkState, Error>(Error::NestedLiveSubprogram));
                                            lemma_state_err_persists(
                                                unit@,
                                                lv,
                                                i as int + 1,
                                                unit@.steps.len() as int,
                                            );
                                        }
                                        return Err(Error::NestedLiveSubprogram);
                                    }
                                    act = Some(d2);
                                    let name = demangle(sub.name.as_str());
                                    elements.push(Element { range: r, frame: Frame { name, depth: d2 } });
                                    proof {
                                        assert(elements@.map_values(|e: Element| e@) =~= st0.elems.push(
                                            ElementSpec {
                                                range: r,
                                                frame: FrameSpec {
                                                    name: frame_name(sub@.name),
                                                    depth: d2 as int,
                                                },
                                            },
                                        ));
                                    }
                                }
                            },
                            Span::Inlined => {},
                        }
                    },
                }
            },
            Tag::InlinedSubroutine => {
                if act.is_some() {
                    match InlinedSubroutine::from_die(&unit.nodes, node, step.node, d2) {
                        Err(e) => {
                            proof {
                                assert(unit@.nodes =~= unit.nodes@.map_values(|n: Node| n@));
                                assert(state_at(unit@, lv, i as int + 1) == Err::<WalkState, Error>(e));
                                lemma_state_err_persists(unit@, lv, i as int + 1, unit@.steps.len() as int);
                            }
                            return Err(e);
                        },
                        Ok(isub) => {
                            let name = demangle(isub.origin.name.as_str());
                            elements.push(Element { range: isub.pc, frame: Frame { name, depth: d2 } });
                            proof {
                                assert(unit@.nodes =~= unit.nodes@.map_values(|n: Node| n@));
                                assert(elements@.map_values(|e: Element| e@) =~= st0.elems.push(
                                    ElementSpec {
                                        range: isub@.pc,
                                        frame: FrameSpec {
                                            name: frame_name(isub@.origin.name),
                                            depth: d2 as int,
                                        },
                                    },
                                ));
                            }
                        },
                    }
                }
            },
            Tag::Other => {},
        }
        depth = d2;
        active = act;
        i = i + 1;
        proof {
            assert(state_at(unit@, lv, i as int) == walk_step(unit@, lv, st0, step));
        }
    }
    Ok(elements)
}

/// Walks every unit in order and returns the full element list of the
/// pass, or the first error met.
pub fn frames(units: &Vec<Unit>, live_functions: &Vec<String>) -> (r: Result<Vec<Element>, Error>)
    requires
        forall|i: int| 0 <= i < units@.len() ==> wf_unit((#[trigger] units@[i])@),
    ensures
        ({
            let out = pass_elements(units_view(units@), live_set(live_functions@));
            match r {
                Ok(v) => out == Ok::<Seq<ElementSpec>, Error>(v@.map_values(|e: Element| e@)),
                Err(e) => out == Err::<Seq<ElementSpec>, Error>(e),
            }
        }),
{
    let ghost us = units_view(units@);
    let ghost lv = live_set(live_functions@);
    let mut elements: Vec<Element> = Vec::new();
    proof {
        assert(elements@.map_values(|e: Element| e@) =~= Seq::<ElementSpec>::empty());
    }
    let mut k: usize = 0;
    while k < units.len()
        invariant
            forall|i: int| 0 <= i < units@.len() ==> wf_unit((#[trigger] units@[i])@),
            us == units_view(units@),
            lv == live_set(live_functions@),
            us.len() == units@.len(),
            k <= units.len(),
            elements_upto(us, lv, k as int) == Ok::<Seq<ElementSpec>, Error>(
                elements@.map_values(|e: Element| e@),
            ),
        decreases units.len() - k,
    {
        let ghost acc0 = elements@.map_values(|e: Element| e@);
        proof {
            assert(us[k as int] == units@[k as int]@);
        }
        match process_unit(&units[k], live_functions) {
            Err(e) => {
                proof {
                    assert(elements_upto(us, lv, k as int + 1) == Err::<Seq<ElementSpec>, Error>(e));
                    lemma_upto_err_persists(us, lv, k as int + 1, us.len() as int);
                }
                return Err(e);
            },
            Ok(mut v) => {
                let ghost vs = v@.map_values(|e: Element| e@);
                elements.append(&mut v);
                proof {
                    assert(elements@.map_values(|e: Element| e@) =~= acc0 + vs);
                }
            },
        }
        k = k + 1;
    }
    Ok(elements)
}

/// The whole pass: walks every unit and builds the queryable interval
/// map from the collected elements.
pub fn from(units: &Vec<Unit>, live_functions: &Vec<String>) -> (r: Result<FrameMap, Error>)
    requires
        forall|i: int| 0 <= i < units@.len() ==> wf_unit((#[trigger] units@[i])@),
    ensures
        ({
            let out = pass_elements(units_view(units@), live_set(live_functions@));
            match r {
                Ok(m) => out is Ok && map_entries(m) == out->Ok_0.to_multiset(),
                Err(e) => out == Err::<Seq<ElementSpec>, Error>(e),
            }
        }),
{
    match frames(units, live_functions) {
        Err(e) => Err(e),
        Ok(elements) => Ok(build_map(elements)),
    }
}

} // verus!
