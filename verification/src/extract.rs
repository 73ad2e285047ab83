//! Extraction of function definitions (subprograms) and inlining instances
//! (inlined subroutines) from single tree nodes.
//!
//! Each extractor scans a node's attributes once, left to right, keeping
//! the last value seen for each recognized attribute; an attribute in an
//! encoding the extractor does not expect for its name aborts the scan.
//! The spec functions below state the outcome of that scan exactly, and
//! the executable extractors are proved to return it.

use vstd::prelude::*;

use crate::model::{AddrRange, Attr, AttrName, AttrSpec, AttrValue, AttrValueSpec, Error, Node,
    NodeSpec, Span, Tag};

verus! {

/// A function definition as recorded in debug information.
pub struct Subprogram {
    /// Depth in the tree at which the definition stands.
    pub depth: isize,
    /// Raw (possibly mangled) name: linkage name if present, else display name.
    pub name: String,
    /// Address span, or `Inlined` for a template-only definition.
    pub span: Span,
}

/// Spec view of a subprogram.
pub struct SubprogramSpec {
    pub depth: int,
    pub name: Seq<char>,
    pub span: Span,
}

impl View for Subprogram {
    type V = SubprogramSpec;

    open spec fn view(&self) -> SubprogramSpec {
        SubprogramSpec { depth: self.depth as int, name: self.name@, span: self.span }
    }
}

/// One inlining instance of a subprogram at a particular call site.
pub struct InlinedSubroutine {
    pub call_file: u64,
    pub call_line: u64,
    /// The template definition this instance inlines.
    pub origin: Subprogram,
    /// The instance's own address range.
    pub pc: AddrRange,
}

/// Spec view of an inlined subroutine.
pub struct InlinedSubroutineSpec {
    pub call_file: u64,
    pub call_line: u64,
    pub origin: SubprogramSpec,
    pub pc: AddrRange,
}

impl View for InlinedSubroutine {
    type V = InlinedSubroutineSpec;

    open spec fn view(&self) -> InlinedSubroutineSpec {
        InlinedSubroutineSpec {
            call_file: self.call_file,
            call_line: self.call_line,
            origin: self.origin@,
            pc: self.pc,
        }
    }
}

// ---------------------------------------------------------------------------
// Subprogram extraction, spec side.
// ---------------------------------------------------------------------------

/// Accumulator of a subprogram node's attribute scan.
pub struct SubScan {
    pub inlined: bool,
    pub linkage: Option<Seq<char>>,
    pub name: Option<Seq<char>>,
    pub low: Option<u64>,
    pub off: Option<u64>,
}

pub open spec fn sub_scan_init() -> SubScan {
    SubScan { inlined: false, linkage: None, name: None, low: None, off: None }
}

/// Effect of one attribute on the subprogram scan.
pub open spec fn sub_scan_step(acc: SubScan, a: AttrSpec) -> Result<SubScan, Error> {
    match a.name {
        AttrName::LowPc => match a.value {
            AttrValueSpec::Addr(addr) => Ok(SubScan {
                inlined: acc.inlined,
                linkage: acc.linkage,
                name: acc.name,
                low: Some(addr),
                off: acc.off,
            }),
            _ => Err(Error::UnexpectedAttributeForm { attr: AttrName::LowPc }),
        },
        AttrName::HighPc => match a.value {
            AttrValueSpec::Udata(v) => Ok(SubScan {
                inlined: acc.inlined,
                linkage: acc.linkage,
                name: acc.name,
                low: acc.low,
                off: Some(v),
            }),
            AttrValueSpec::OtherConstant(v) => Ok(SubScan {
                inlined: acc.inlined,
                linkage: acc.linkage,
                name: acc.name,
                low: acc.low,
                off: Some(v),
            }),
            _ => Err(Error::UnexpectedAttributeForm { attr: AttrName::HighPc }),
        },
        AttrName::LinkageName => match a.value {
            AttrValueSpec::StrRef(s) => Ok(SubScan {
                inlined: acc.inlined,
                linkage: Some(s),
                name: acc.name,
                low: acc.low,
                off: acc.off,
            }),
            _ => Err(Error::UnexpectedAttributeForm { attr: AttrName::LinkageName }),
        },
        AttrName::Name => match a.value {
            AttrValueSpec::StrRef(s) => Ok(SubScan {
                inlined: acc.inlined,
                linkage: acc.linkage,
                name: Some(s),
                low: acc.low,
                off: acc.off,
            }),
            _ => Err(Error::UnexpectedAttributeForm { attr: AttrName::Name }),
        },
        AttrName::Inline => match a.value {
            AttrValueSpec::InlineFlag(true) => Ok(SubScan {
                inlined: true,
                linkage: acc.linkage,
                name: acc.name,
                low: acc.low,
                off: acc.off,
            }),
            _ => Ok(acc),
        },
        _ => Ok(acc),
    }
}

/// The scan of `attrs` from position `i` onward, starting from `acc`.
pub open spec fn sub_scan(attrs: Seq<AttrSpec>, i: int, acc: SubScan) -> Result<SubScan, Error>
    decreases attrs.len() - i,
{
    if i < 0 || i >= attrs.len() {
        Ok(acc)
    } else {
        match sub_scan_step(acc, attrs[i]) {
            Ok(acc2) => sub_scan(attrs, i + 1, acc2),
            Err(e) => Err(e),
        }
    }
}

/// What extracting a subprogram from `node` (at arena index `node_id`,
/// met at tree depth `depth`) yields: a subprogram, nothing (the node
/// carries no usable identity), or a malformed-input error.
pub open spec fn spec_subprogram(node: NodeSpec, node_id: usize, depth: int) -> Result<
    Option<SubprogramSpec>,
    Error,
> {
    match sub_scan(node.attrs, 0, sub_scan_init()) {
        Err(e) => Err(e),
        Ok(sc) => match (if sc.linkage is Some {
            sc.linkage
        } else {
            sc.name
        }) {
            None => Ok(None),
            Some(nm) => if sc.inlined {
                Ok(Some(SubprogramSpec { depth, name: nm, span: Span::Inlined }))
            } else {
                match sc.low {
                    None => Err(Error::MissingRequiredAttribute { node: node_id, attr: AttrName::LowPc }),
                    Some(lo) => match sc.off {
                        None => Err(Error::MissingRequiredAttribute {
                            node: node_id,
                            attr: AttrName::HighPc,
                        }),
                        Some(off) => if lo + off > u64::MAX {
                            Err(Error::UnexpectedAttributeForm { attr: AttrName::HighPc })
                        } else {
                            Ok(Some(SubprogramSpec {
                                depth,
                                name: nm,
                                span: Span::Pc(AddrRange { lo, hi: (lo + off) as u64 }),
                            }))
                        },
                    },
                }
            },
        },
    }
}

/// Spec view of an `Option<String>`.
pub open spec fn opt_str_view(o: Option<String>) -> Option<Seq<char>> {
    match o {
        Some(s) => Some(s@),
        None => None,
    }
}

impl Subprogram {
    /// Extracts a subprogram from a function-definition node.  Returns
    /// `Ok(None)` when the node carries neither a linkage name nor a
    /// display name; such nodes are structural artifacts the caller skips.
    pub fn from_die(node: &Node, node_id: usize, depth: isize) -> (r: Result<
        Option<Subprogram>,
        Error,
    >)
        requires
            node@.tag == Tag::Subprogram,
        ensures
            ({
                let s = spec_subprogram(node@, node_id, depth as int);
                match r {
                    Ok(Some(sub)) => s == Ok::<Option<SubprogramSpec>, Error>(Some(sub@)),
                    Ok(None) => s == Ok::<Option<SubprogramSpec>, Error>(None),
                    Err(e) => s == Err::<Option<SubprogramSpec>, Error>(e),
                }
            }),
    {
        let mut inlined = false;
        let mut linkage: Option<String> = None;
        let mut name: Option<String> = None;
        let mut low: Option<u64> = None;
        let mut off: Option<u64> = None;
        let mut i: usize = 0;
        while i < node.attrs.len()
            invariant
                node@.tag == Tag::Subprogram,
                i <= node.attrs.len(),
                node@.attrs.len() == node.attrs.len(),
                forall|j: int| 0 <= j < node.attrs.len() ==> node@.attrs[j] == (#[trigger] node.attrs@[j])@,
                sub_scan(node@.attrs, 0, sub_scan_init()) == sub_scan(
                    node@.attrs,
                    i as int,
                    SubScan {
                        inlined,
                        linkage: opt_str_view(linkage),
                        name: opt_str_view(name),
                        low,
                        off,
                    },
                ),
            decreases node.attrs.len() - i,
        {
            let ghost acc = SubScan {
                inlined,
                linkage: opt_str_view(linkage),
                name: opt_str_view(name),
                low,
                off,
            };
            let a = &node.attrs[i];
            proof {
                assert(node@.attrs[i as int] == a@);
            }
            match a.name {
                AttrName::LowPc => match &a.value {
                    AttrValue::Addr(addr) => {
                        low = Some(*addr);
                    },
                    _ => {
                        return Err(Error::UnexpectedAttributeForm { attr: AttrName::LowPc });
                    },
                },
                AttrName::HighPc => match &a.value {
                    AttrValue::Udata(v) => {
                        off = Some(*v);
                    },
                    AttrValue::OtherConstant(v) => {
                        off = Some(*v);
                    },
                    _ => {
                        return Err(Error::UnexpectedAttributeForm { attr: AttrName::HighPc });
                    },
                },
                AttrName::LinkageName => match &a.value {
                    AttrValue::StrRef(s) => {
                        linkage = Some(s.clone());
                    },
                    _ => {
                        return Err(Error::UnexpectedAttributeForm { attr: AttrName::LinkageName });
                    },
                },
                AttrName::Name => match &a.value {
                    AttrValue::StrRef(s) => {
                        name = Some(s.clone());
                    },
                    _ => {
                        return Err(Error::UnexpectedAttributeForm { attr: AttrName::Name });
                    },
                },
                AttrName::Inline => match &a.value {
                    AttrValue::InlineFlag(true) => {
                        inlined = true;
                    },
                    _ => {},
                },
                _ => {},
            }
            proof {
                assert(sub_scan_step(acc, node@.attrs[i as int]) == Ok::<SubScan, Error>(
                    SubScan {
                        inlined,
                        linkage: opt_str_view(linkage),
                        name: opt_str_view(name),
                        low,
                        off,
                    },
                ));
            }
            i = i + 1;
        }
        let chosen: Option<String> = if linkage.is_some() {
            linkage
        } else {
            name
        };
        match chosen {
            None => Ok(None),
            Some(nm) => {
                if inlined {
                    Ok(Some(Subprogram { depth, name: nm, span: Span::Inlined }))
                } else {
                    let lo = match low {
                        Some(l) => l,
                        None => {
                            return Err(Error::MissingRequiredAttribute {
                                node: node_id,
                                attr: AttrName::LowPc,
                            });
                        },
                    };
                    let o = match off {
                        Some(v) => v,
                        None => {
                            return Err(Error::MissingRequiredAttribute {
                                node: node_id,
                                attr: AttrName::HighPc,
                            });
                        },
                    };
                    if lo > u64::MAX - o {
                        return Err(Error::UnexpectedAttributeForm { attr: AttrName::HighPc });
                    }
                    Ok(Some(Subprogram { depth, name: nm, span: Span::Pc(AddrRange { lo, hi: lo + o }) }))
                }
            },
        }
    }
}

// ---------------------------------------------------------------------------
// Inlined-subroutine extraction, spec side.
// ---------------------------------------------------------------------------

/// Accumulator of an inline-call-site node's attribute scan.
pub struct InlScan {
    pub origin: Option<SubprogramSpec>,
    pub at_range: Option<AddrRange>,
    pub low: Option<u64>,
    pub off: Option<u64>,
    pub call_file: Option<u64>,
    pub call_line: Option<u64>,
}

pub open spec fn inl_scan_init() -> InlScan {
    InlScan { origin: None, at_range: None, low: None, off: None, call_file: None, call_line: None }
}

/// What resolving an abstract-origin back-reference `idx` (within the
/// arena `nodes`, at tree depth `depth`) yields.  The reference must point
/// at a function-definition node that extracts to a named subprogram.
pub open spec fn spec_resolve_origin(nodes: Seq<NodeSpec>, idx: usize, depth: int) -> Result<
    SubprogramSpec,
    Error,
> {
    if idx >= nodes.len() || nodes[idx as int].tag != Tag::Subprogram {
        Err(Error::UnresolvedOrigin)
    } else {
        match spec_subprogram(nodes[idx as int], idx, depth) {
            Err(e) => Err(e),
            Ok(None) => Err(Error::UnresolvedOrigin),
            Ok(Some(sub)) => Ok(sub),
        }
    }
}

/// Effect of one attribute on the inline-call-site scan.
pub open spec fn inl_scan_step(
    nodes: Seq<NodeSpec>,
    depth: int,
    acc: InlScan,
    a: AttrSpec,
) -> Result<InlScan, Error> {
    match a.name {
        AttrName::AbstractOrigin => match a.value {
            AttrValueSpec::UnitRef(idx) => match spec_resolve_origin(nodes, idx, depth) {
                Err(e) => Err(e),
                Ok(sub) => Ok(InlScan {
                    origin: Some(sub),
                    at_range: acc.at_range,
                    low: acc.low,
                    off: acc.off,
                    call_file: acc.call_file,
                    call_line: acc.call_line,
                }),
            },
            _ => Err(Error::UnexpectedAttributeForm { attr: AttrName::AbstractOrigin }),
        },
        AttrName::Ranges => match a.value {
            AttrValueSpec::RangeList(rs) => if rs.len() == 0 {
                Err(Error::UnexpectedAttributeForm { attr: AttrName::Ranges })
            } else {
                Ok(InlScan {
                    origin: acc.origin,
                    at_range: Some(AddrRange { lo: rs[0].0, hi: rs[0].1 }),
                    low: acc.low,
                    off: acc.off,
                    call_file: acc.call_file,
                    call_line: acc.call_line,
                })
            },
            _ => Ok(acc),
        },
        AttrName::LowPc => match a.value {
            AttrValueSpec::Addr(addr) => Ok(InlScan {
                origin: acc.origin,
                at_range: acc.at_range,
                low: Some(addr),
                off: acc.off,
                call_file: acc.call_file,
                call_line: acc.call_line,
            }),
            _ => Err(Error::UnexpectedAttributeForm { attr: AttrName::LowPc }),
        },
        AttrName::HighPc => match a.value {
            AttrValueSpec::Udata(v) => Ok(InlScan {
                origin: acc.origin,
                at_range: acc.at_range,
                low: acc.low,
                off: Some(v),
                call_file: acc.call_file,
                call_line: acc.call_line,
            }),
            AttrValueSpec::OtherConstant(v) => Ok(InlScan {
                origin: acc.origin,
                at_range: acc.at_range,
                low: acc.low,
                off: Some(v),
                call_file: acc.call_file,
                call_line: acc.call_line,
            }),
            _ => Err(Error::UnexpectedAttributeForm { attr: AttrName::HighPc }),
        },
        AttrName::CallFile => match a.value {
            AttrValueSpec::FileIndex(idx) => Ok(InlScan {
                origin: acc.origin,
                at_range: acc.at_range,
                low: acc.low,
                off: acc.off,
                call_file: Some(idx),
                call_line: acc.call_line,
            }),
            _ => Ok(acc),
        },
        AttrName::CallLine => match a.value {
            AttrValueSpec::Udata(line) => Ok(InlScan {
                origin: acc.origin,
                at_range: acc.at_range,
                low: acc.low,
                off: acc.off,
                call_file: acc.call_file,
                call_line: Some(line),
            }),
            _ => Ok(acc),
        },
        _ => Ok(acc),
    }
}

/// The scan of `attrs` from position `i` onward, starting from `acc`.
pub open spec fn inl_scan(
    nodes: Seq<NodeSpec>,
    depth: int,
    attrs: Seq<AttrSpec>,
    i: int,
    acc: InlScan,
) -> Result<InlScan, Error>
    decreases attrs.len() - i,
{
    if i < 0 || i >= attrs.len() {
        Ok(acc)
    } else {
        match inl_scan_step(nodes, depth, acc, attrs[i]) {
            Ok(acc2) => inl_scan(nodes, depth, attrs, i + 1, acc2),
            Err(e) => Err(e),
        }
    }
}

/// The address range of a scanned call site: the first entry of its range
/// list when one was given, else `[low, low + off)`.
pub open spec fn spec_inl_pc(sc: InlScan, node_id: usize) -> Result<AddrRange, Error> {
    match sc.at_range {
        Some(r) => Ok(r),
        None => match sc.low {
            None => Err(Error::MissingRequiredAttribute { node: node_id, attr: AttrName::LowPc }),
            Some(lo) => match sc.off {
                None => Err(Error::MissingRequiredAttribute {
                    node: node_id,
                    attr: AttrName::HighPc,
                }),
                Some(off) => if lo + off > u64::MAX {
                    Err(Error::UnexpectedAttributeForm { attr: AttrName::HighPc })
                } else {
                    Ok(AddrRange { lo, hi: (lo + off) as u64 })
                },
            },
        },
    }
}

/// What extracting an inlined subroutine from `node` (at arena index
/// `node_id`, met at tree depth `depth`, within the arena `nodes`) yields.
pub open spec fn spec_inlined(
    nodes: Seq<NodeSpec>,
    node: NodeSpec,
    node_id: usize,
    depth: int,
) -> Result<InlinedSubroutineSpec, Error> {
    match inl_scan(nodes, depth, node.attrs, 0, inl_scan_init()) {
        Err(e) => Err(e),
        Ok(sc) => match spec_inl_pc(sc, node_id) {
            Err(e) => Err(e),
            Ok(pc) => match sc.origin {
                None => Err(Error::MissingRequiredAttribute {
                    node: node_id,
                    attr: AttrName::AbstractOrigin,
                }),
                Some(origin) => match sc.call_file {
                    None => Err(Error::MissingRequiredAttribute {
                        node: node_id,
                        attr: AttrName::CallFile,
                    }),
                    Some(call_file) => match sc.call_line {
                        None => Err(Error::MissingRequiredAttribute {
                            node: node_id,
                            attr: AttrName::CallLine,
                        }),
                        Some(call_line) => Ok(InlinedSubroutineSpec {
                            call_file,
                            call_line,
                            origin,
                            pc,
                        }),
                    },
                },
            },
        },
    }
}

/// Spec view of an `Option<Subprogram>`.
pub open spec fn opt_sub_view(o: Option<Subprogram>) -> Option<SubprogramSpec> {
    match o {
        Some(s) => Some(s@),
        None => None,
    }
}

impl InlinedSubroutine {
    /// Extracts an inlined subroutine from an inline-call-site node,
    /// resolving its abstract-origin back-reference within `nodes`, the
    /// arena of the owning unit.
    pub fn from_die(nodes: &Vec<Node>, node: &Node, node_id: usize, depth: isize) -> (r: Result<
        InlinedSubroutine,
        Error,
    >)
        requires
            node@.tag == Tag::InlinedSubroutine,
        ensures
            ({
                let s = spec_inlined(
                    nodes@.map_values(|n: Node| n@),
                    node@,
                    node_id,
                    depth as int,
                );
                match r {
                    Ok(isub) => s == Ok::<InlinedSubroutineSpec, Error>(isub@),
                    Err(e) => s == Err::<InlinedSubroutineSpec, Error>(e),
                }
            }),
    {
        let ghost nodes_v = nodes@.map_values(|n: Node| n@);
        let mut origin: Option<Subprogram> = None;
        let mut at_range: Option<AddrRange> = None;
        let mut low: Option<u64> = None;
        let mut off: Option<u64> = None;
        let mut call_file: Option<u64> = None;
        let mut call_line: Option<u64> = None;
        let mut i: usize = 0;
        while i < node.attrs.len()
            invariant
                node@.tag == Tag::InlinedSubroutine,
                i <= node.attrs.len(),
                node@.attrs.len() == node.attrs.len(),
                nodes_v == nodes@.map_values(|n: Node| n@),
                forall|j: int| 0 <= j < node.attrs.len() ==> node@.attrs[j] == (#[trigger] node.attrs@[j])@,
                inl_scan(nodes_v, depth as int, node@.attrs, 0, inl_scan_init()) == inl_scan(
                    nodes_v,
                    depth as int,
                    node@.attrs,
                    i as int,
                    InlScan {
                        origin: opt_sub_view(origin),
                        at_range,
                        low,
                        off,
                        call_file,
                        call_line,
                    },
                ),
            decreases node.attrs.len() - i,
        {
            let ghost acc = InlScan {
                origin: opt_sub_view(origin),
                at_range,
                low,
                off,
                call_file,
                call_line,
            };
            let a = &node.attrs[i];
            proof {
                assert(node@.attrs[i as int] == a@);
            }
            match a.name {
                AttrName::AbstractOrigin => match &a.value {
                    AttrValue::UnitRef(idx) => {
                        let idx = *idx;
                        if idx >= nodes.len() {
                            return Err(Error::UnresolvedOrigin);
                        }
                        let target = &nodes[idx];
                        proof {
                            assert(nodes_v[idx as int] == target@);
                        }
                        match target.tag {
                            Tag::Subprogram => {},
                            _ => {
                                return Err(Error::UnresolvedOrigin);
                            },
                        }
                        match Subprogram::from_die(target, idx, depth) {
                            Err(e) => {
                                return Err(e);
                            },
                            Ok(None) => {
                                return Err(Error::UnresolvedOrigin);
                            },
                            Ok(Some(sub)) => {
                                origin = Some(sub);
                            },
                        }
                    },
                    _ => {
                        return Err(Error::UnexpectedAttributeForm {
                            attr: AttrName::AbstractOrigin,
                        });
                    },
                },
                AttrName::Ranges => match &a.value {
                    AttrValue::RangeList(rs) => {
                        if rs.len() == 0 {
                            return Err(Error::UnexpectedAttributeForm { attr: AttrName::Ranges });
                        }
                        let first = rs[0];
                        at_range = Some(AddrRange { lo: first.0, hi: first.1 });
                    },
                    _ => {},
                },
                AttrName::LowPc => match &a.value {
                    AttrValue::Addr(addr) => {
                        low = Some(*addr);
                    },
                    _ => {
                        return Err(Error::UnexpectedAttributeForm { attr: AttrName::LowPc });
                    },
                },
                AttrName::HighPc => match &a.value {
                    AttrValue::Udata(v) => {
                        off = Some(*v);
                    },
                    AttrValue::OtherConstant(v) => {
                        off = Some(*v);
                    },
                    _ => {
                        return Err(Error::UnexpectedAttributeForm { attr: AttrName::HighPc });
                    },
                },
                AttrName::CallFile => match &a.value {
                    AttrValue::FileIndex(idx) => {
                        call_file = Some(*idx);
                    },
                    _ => {},
                },
                AttrName::CallLine => match &a.value {
                    AttrValue::Udata(line) => {
                        call_line = Some(*line);
                    },
                    _ => {},
                },
                _ => {},
            }
            proof {
                assert(inl_scan_step(nodes_v, depth as int, acc, node@.attrs[i as int])
                    == Ok::<InlScan, Error>(
                    InlScan {
                        origin: opt_sub_view(origin),
                        at_range,
                        low,
                        off,
                        call_file,
                        call_line,
                    },
                ));
            }
            i = i + 1;
        }
        let pc = match at_range {
            Some(r) => r,
            None => {
                let lo = match low {
                    Some(l) => l,
                    None => {
                        return Err(Error::MissingRequiredAttribute {
                            node: node_id,
                            attr: AttrName::LowPc,
                        });
                    },
                };
                let o = match off {
                    Some(v) => v,
                    None => {
                        return Err(Error::MissingRequiredAttribute {
                            node: node_id,
                            attr: AttrName::HighPc,
                        });
                    },
                };
                if lo > u64::MAX - o {
                    return Err(Error::UnexpectedAttributeForm { attr: AttrName::HighPc });
                }
                AddrRange { lo, hi: lo + o }
            },
        };
        let origin = match origin {
            Some(sub) => sub,
            None => {
                return Err(Error::MissingRequiredAttribute {
                    node: node_id,
                    attr: AttrName::AbstractOrigin,
                });
            },
        };
        let call_file = match call_file {
            Some(f) => f,
            None => {
                return Err(Error::MissingRequiredAttribute {
                    node: node_id,
                    attr: AttrName::CallFile,
                });
            },
        };
        let call_line = match call_line {
            Some(l) => l,
            None => {
                return Err(Error::MissingRequiredAttribute {
                    node: node_id,
                    attr: AttrName::CallLine,
                });
            },
        };
        Ok(InlinedSubroutine { call_file, call_line, origin, pc })
    }
}

} // verus!
