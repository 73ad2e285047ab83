//! The library's laws: what a successful pass guarantees about which
//! elements reach the output, proved against the functional model of the
//! walk in `pc2frames`.

use vstd::prelude::*;

use crate::demangle::{frame_name, has_hash_suffix, strip_hash};
use crate::extract::{spec_inlined, spec_subprogram};
use crate::model::{Span, Tag, UnitSpec};
use crate::pc2frames::{ElementSpec, FrameSpec, emits_at, pass_elements, reset_active, state_at,
    unit_elements, walk_step};

verus! {

/// The element list only grows as the walk advances: the state after `i`
/// steps is defined whenever the state after `j >= i` steps is, and its
/// elements are a prefix of the later ones.
pub proof fn lemma_elems_monotone(u: UnitSpec, live: Set<Seq<char>>, i: int, j: int)
    requires
        0 <= i <= j,
        state_at(u, live, j) is Ok,
    ensures
        state_at(u, live, i) is Ok,
        state_at(u, live, i)->Ok_0.elems.len() <= state_at(u, live, j)->Ok_0.elems.len(),
        forall|k: int|
            0 <= k < state_at(u, live, i)->Ok_0.elems.len() ==> state_at(u, live, j)->Ok_0.elems[k]
                == state_at(u, live, i)->Ok_0.elems[k],
    decreases j - i,
{
    if i < j {
        lemma_elems_monotone(u, live, i, j - 1);
    }
}

/// A live function definition with an address span, met by the walk of a
/// unit whose pass succeeds, contributes an element holding exactly its
/// declared range, its demangled name without the disambiguation hash,
/// and the tree depth at which it was met.
pub proof fn lemma_live_function_entry(u: UnitSpec, live: Set<Seq<char>>, i: int)
    requires
        0 <= i < u.steps.len(),
        unit_elements(u, live) is Ok,
    ensures
        state_at(u, live, i) is Ok,
        ({
            let st = state_at(u, live, i)->Ok_0;
            let step = u.steps[i];
            let depth = st.depth + step.delta;
            step.node < u.nodes.len() && u.nodes[step.node as int].tag == Tag::Subprogram
                ==> match spec_subprogram(u.nodes[step.node as int], step.node, depth) {
                Ok(Some(sub)) => match sub.span {
                    Span::Pc(r) => live.contains(sub.name)
                        ==> unit_elements(u, live)->Ok_0.contains(
                        ElementSpec {
                            range: r,
                            frame: FrameSpec { name: frame_name(sub.name), depth },
                        },
                    ),
                    Span::Inlined => true,
                },
                Ok(None) => true,
                Err(_) => true,
            }
        }),
{
    let n = u.steps.len() as int;
    lemma_elems_monotone(u, live, i, n);
    let st = state_at(u, live, i)->Ok_0;
    let step = u.steps[i];
    let depth = st.depth + step.delta;
    if step.node < u.nodes.len() && u.nodes[step.node as int].tag == Tag::Subprogram {
        let node = u.nodes[step.node as int];
        match spec_subprogram(node, step.node, depth) {
            Ok(Some(sub)) => match sub.span {
                Span::Pc(r) => if live.contains(sub.name) {
                    assert(state_at(u, live, i + 1) == walk_step(u, live, st, step));
                    if reset_active(st.active, depth) is Some {
                        lemma_elems_monotone(u, live, i + 1, n);
                        assert(false);
                    }
                    let e = ElementSpec {
                        range: r,
                        frame: FrameSpec { name: frame_name(sub.name), depth },
                    };
                    let st1 = state_at(u, live, i + 1)->Ok_0;
                    assert(st1.elems == st.elems.push(e));
                    lemma_elems_monotone(u, live, i + 1, n);
                    let out = unit_elements(u, live)->Ok_0;
                    assert(out[st.elems.len() as int] == e);
                    assert(out.contains(e));
                },
                Span::Inlined => {},
            },
            Ok(None) => {},
            Err(_) => {},
        }
    }
}

/// An inline call site met inside a live function's subtree contributes
/// an element holding its resolved address range and its origin's
/// demangled name, at a tree depth strictly greater than the depth at
/// which the enclosing live function began.
pub proof fn lemma_inline_entry(u: UnitSpec, live: Set<Seq<char>>, i: int)
    requires
        0 <= i < u.steps.len(),
        unit_elements(u, live) is Ok,
    ensures
        state_at(u, live, i) is Ok,
        ({
            let st = state_at(u, live, i)->Ok_0;
            let step = u.steps[i];
            let depth = st.depth + step.delta;
            step.node < u.nodes.len() && u.nodes[step.node as int].tag == Tag::InlinedSubroutine
                ==> match reset_active(st.active, depth) {
                Some(d) => match spec_inlined(u.nodes, u.nodes[step.node as int], step.node, depth) {
                    Ok(isub) => depth > d && unit_elements(u, live)->Ok_0.contains(
                        ElementSpec {
                            range: isub.pc,
                            frame: FrameSpec { name: frame_name(isub.origin.name), depth },
                        },
                    ),
                    Err(_) => true,
                },
                None => true,
            }
        }),
{
    let n = u.steps.len() as int;
    lemma_elems_monotone(u, live, i, n);
    let st = state_at(u, live, i)->Ok_0;
    let step = u.steps[i];
    let depth = st.depth + step.delta;
    if step.node < u.nodes.len() && u.nodes[step.node as int].tag == Tag::InlinedSubroutine {
        if reset_active(st.active, depth) matches Some(d) {
            let node = u.nodes[step.node as int];
            match spec_inlined(u.nodes, node, step.node, depth) {
                Ok(isub) => {
                    assert(state_at(u, live, i + 1) == walk_step(u, live, st, step));
                    let e = ElementSpec {
                        range: isub.pc,
                        frame: FrameSpec { name: frame_name(isub.origin.name), depth },
                    };
                    let st1 = state_at(u, live, i + 1)->Ok_0;
                    assert(st1.elems == st.elems.push(e));
                    lemma_elems_monotone(u, live, i + 1, n);
                    let out = unit_elements(u, live)->Ok_0;
                    assert(out[st.elems.len() as int] == e);
                    assert(out.contains(e));
                },
                Err(_) => {},
            }
        }
    }
}

/// Every element of a successful walk over a unit originates in a step
/// that emits it: either a live function definition, or an inline call
/// site met inside a live function's subtree.  In particular a function
/// definition outside the live set contributes no element of its own, and
/// no call site inside such a dead function contributes one either.
pub proof fn lemma_entries_have_live_origin(u: UnitSpec, live: Set<Seq<char>>, k: int)
    requires
        unit_elements(u, live) is Ok,
        0 <= k < unit_elements(u, live)->Ok_0.len(),
    ensures
        exists|i: int| #[trigger] emits_at(u, live, i, unit_elements(u, live)->Ok_0[k]),
{
    let n = u.steps.len() as int;
    assert(unit_elements(u, live)->Ok_0 == state_at(u, live, n)->Ok_0.elems);
    lemma_origin_helper(u, live, n, k);
}

proof fn lemma_origin_helper(u: UnitSpec, live: Set<Seq<char>>, j: int, k: int)
    requires
        0 <= j <= u.steps.len(),
        state_at(u, live, j) is Ok,
        0 <= k < state_at(u, live, j)->Ok_0.elems.len(),
    ensures
        exists|i: int| #[trigger] emits_at(u, live, i, state_at(u, live, j)->Ok_0.elems[k]),
    decreases j,
{
    if j > 0 {
        let st0 = state_at(u, live, j - 1)->Ok_0;
        let st1 = state_at(u, live, j)->Ok_0;
        assert(state_at(u, live, j) == walk_step(u, live, st0, u.steps[j - 1]));
        if k < st0.elems.len() {
            assert(st1.elems[k] == st0.elems[k]);
            lemma_origin_helper(u, live, j - 1, k);
            let i0 = choose|i: int| #[trigger] emits_at(u, live, i, st0.elems[k]);
            assert(emits_at(u, live, i0, st1.elems[k]));
        } else {
            assert(emits_at(u, live, j - 1, st1.elems[k]));
        }
    }
}

/// What step `i` of the walk pushes onto the output, if anything.
pub open spec fn emit_of(u: UnitSpec, live: Set<Seq<char>>, i: int) -> Option<ElementSpec> {
    if state_at(u, live, i) is Ok && state_at(u, live, i + 1) is Ok && state_at(
        u,
        live,
        i + 1,
    )->Ok_0.elems.len() > state_at(u, live, i)->Ok_0.elems.len() {
        Some(state_at(u, live, i + 1)->Ok_0.elems.last())
    } else {
        None
    }
}

/// How many of the first `j` steps push exactly `e`.
pub open spec fn emit_count(u: UnitSpec, live: Set<Seq<char>>, j: int, e: ElementSpec) -> int
    decreases j,
{
    if j <= 0 {
        0
    } else {
        emit_count(u, live, j - 1, e) + if emit_of(u, live, j - 1) == Some(e) {
            1int
        } else {
            0int
        }
    }
}

/// An element stands in a unit's output as many times as steps of the
/// walk push it: nothing else adds to the output and nothing drops from
/// it.
pub proof fn lemma_entry_count(u: UnitSpec, live: Set<Seq<char>>, e: ElementSpec)
    requires
        unit_elements(u, live) is Ok,
    ensures
        unit_elements(u, live)->Ok_0.filter(|x: ElementSpec| x == e).len() == emit_count(
            u,
            live,
            u.steps.len() as int,
            e,
        ),
{
    lemma_count_helper(u, live, u.steps.len() as int, e);
}

proof fn lemma_count_helper(u: UnitSpec, live: Set<Seq<char>>, j: int, e: ElementSpec)
    requires
        0 <= j <= u.steps.len(),
        state_at(u, live, j) is Ok,
    ensures
        state_at(u, live, j)->Ok_0.elems.filter(|x: ElementSpec| x == e).len() == emit_count(
            u,
            live,
            j,
            e,
        ),
    decreases j,
{
    reveal(Seq::filter);
    let pred = |x: ElementSpec| x == e;
    if j == 0 {
        assert(state_at(u, live, 0)->Ok_0.elems.filter(pred) =~= Seq::<ElementSpec>::empty());
    } else {
        let st0 = state_at(u, live, j - 1)->Ok_0;
        let st1 = state_at(u, live, j)->Ok_0;
        assert(state_at(u, live, j) == walk_step(u, live, st0, u.steps[j - 1]));
        lemma_count_helper(u, live, j - 1, e);
        if st1.elems.len() > st0.elems.len() {
            let x = st1.elems.last();
            assert(st1.elems == st0.elems.push(x));
            assert(st1.elems.drop_last() =~= st0.elems);
            assert(emit_of(u, live, j - 1) == Some(x));
        } else {
            assert(st1.elems == st0.elems);
            assert(emit_of(u, live, j - 1) is None);
        }
    }
}

proof fn lemma_emit_count_single(u: UnitSpec, live: Set<Seq<char>>, j: int, e: ElementSpec, i: int)
    requires
        0 <= j <= u.steps.len(),
        0 <= i < u.steps.len(),
        emit_of(u, live, i) == Some(e),
        forall|i2: int|
            0 <= i2 < u.steps.len() && i2 != i ==> #[trigger] emit_of(u, live, i2) != Some(e),
    ensures
        emit_count(u, live, j, e) == if i < j {
            1int
        } else {
            0int
        },
    decreases j,
{
    if j > 0 {
        lemma_emit_count_single(u, live, j - 1, e, i);
    }
}

/// An element that exactly one step of the walk pushes stands in the
/// output exactly once.  With the provenance lemma above this is the
/// count behind "exactly one entry" for a live function whose name and
/// range no other definition shares.
pub proof fn lemma_entry_exactly_once(u: UnitSpec, live: Set<Seq<char>>, e: ElementSpec, i: int)
    requires
        unit_elements(u, live) is Ok,
        0 <= i < u.steps.len(),
        emit_of(u, live, i) == Some(e),
        forall|i2: int|
            0 <= i2 < u.steps.len() && i2 != i ==> #[trigger] emit_of(u, live, i2) != Some(e),
    ensures
        unit_elements(u, live)->Ok_0.filter(|x: ElementSpec| x == e).len() == 1,
{
    lemma_entry_count(u, live, e);
    lemma_emit_count_single(u, live, u.steps.len() as int, e, i);
}

/// The pass is a function of the unit model and the live-function set
/// alone: equal inputs yield the same outcome, element for element.
pub proof fn lemma_pass_deterministic(
    us1: Seq<UnitSpec>,
    us2: Seq<UnitSpec>,
    live1: Set<Seq<char>>,
    live2: Set<Seq<char>>,
)
    requires
        us1 == us2,
        live1 == live2,
    ensures
        pass_elements(us1, live1) == pass_elements(us2, live2),
{
}

/// Stripping the disambiguation hash from a demangled name that carries
/// one, and that is longer than the bare suffix, keeps everything before
/// the suffix and never yields an empty name.
pub proof fn lemma_stripped_name_nonempty(s: Seq<char>)
    requires
        has_hash_suffix(s),
        s.len() > 19,
    ensures
        strip_hash(s) == s.take(s.len() - 19),
        strip_hash(s).len() > 0,
{
}

} // verus!
