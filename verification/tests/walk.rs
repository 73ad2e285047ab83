use pc2frames::framemap::query_point;
use pc2frames::model::{Attr, AttrName, AttrValue, Error, Node, Step, Tag, Unit};
use pc2frames::pc2frames::{frames, from, Element};

fn attr(name: AttrName, value: AttrValue) -> Attr {
    Attr { name, value }
}

fn root() -> Node {
    Node { tag: Tag::Other, attrs: vec![] }
}

/// A function-definition node with a display name and a `[low, low+off)` span.
fn sub_node(name: &str, low: u64, off: u64) -> Node {
    Node {
        tag: Tag::Subprogram,
        attrs: vec![
            attr(AttrName::Name, AttrValue::StrRef(name.to_string())),
            attr(AttrName::LowPc, AttrValue::Addr(low)),
            attr(AttrName::HighPc, AttrValue::Udata(off)),
        ],
    }
}

/// A template-only function definition (inlined marker, no span).
fn template_node(name: &str) -> Node {
    Node {
        tag: Tag::Subprogram,
        attrs: vec![
            attr(AttrName::Name, AttrValue::StrRef(name.to_string())),
            attr(AttrName::Inline, AttrValue::InlineFlag(true)),
        ],
    }
}

/// An inline call site with explicit bounds, referring to `origin`.
fn inline_node(origin: usize, low: u64, off: u64) -> Node {
    Node {
        tag: Tag::InlinedSubroutine,
        attrs: vec![
            attr(AttrName::AbstractOrigin, AttrValue::UnitRef(origin)),
            attr(AttrName::LowPc, AttrValue::Addr(low)),
            attr(AttrName::HighPc, AttrValue::Udata(off)),
            attr(AttrName::CallFile, AttrValue::FileIndex(1)),
            attr(AttrName::CallLine, AttrValue::Udata(7)),
        ],
    }
}

fn live(names: &[&str]) -> Vec<String> {
    names.iter().map(|n| n.to_string()).collect()
}

fn triple(e: &Element) -> (u64, u64, String, isize) {
    (e.range.lo, e.range.hi, e.frame.name.clone(), e.frame.depth)
}

#[test]
fn live_function_without_inlining_yields_one_entry() {
    let unit = Unit {
        nodes: vec![root(), sub_node("foo", 0x1000, 0x10)],
        steps: vec![Step { delta: 1, node: 1 }],
    };
    let out = frames(&vec![unit], &live(&["foo"])).unwrap();
    assert_eq!(out.len(), 1);
    assert_eq!(triple(&out[0]), (0x1000, 0x1010, "foo".to_string(), 1));
}

#[test]
fn dead_function_and_its_inline_sites_yield_nothing() {
    let unit = Unit {
        nodes: vec![
            root(),
            sub_node("bar", 0x2000, 0x10),
            template_node("baz"),
            inline_node(2, 0x2004, 0x4),
        ],
        steps: vec![
            Step { delta: 1, node: 1 },
            Step { delta: 1, node: 3 },
            Step { delta: -1, node: 2 },
        ],
    };
    // `bar` is not live: neither its own span nor the call site inside it
    // may appear.
    let out = frames(&vec![unit], &live(&["foo"])).unwrap();
    assert!(out.is_empty());
    let map = from(
        &vec![Unit {
            nodes: vec![
                root(),
                sub_node("bar", 0x2000, 0x10),
                template_node("baz"),
                inline_node(2, 0x2004, 0x4),
            ],
            steps: vec![
                Step { delta: 1, node: 1 },
                Step { delta: 1, node: 3 },
                Step { delta: -1, node: 2 },
            ],
        }],
        &live(&["foo"]),
    )
    .unwrap();
    assert!(query_point(&map, 0x2005).is_empty());
}

#[test]
fn live_function_with_inline_site_yields_nested_entries() {
    let unit = Unit {
        nodes: vec![
            root(),
            sub_node("outer", 0x3000, 0x20),
            template_node("inner"),
            inline_node(2, 0x3008, 0x8),
        ],
        steps: vec![
            Step { delta: 1, node: 1 },
            Step { delta: 1, node: 3 },
            Step { delta: -1, node: 2 },
        ],
    };
    let out = frames(&vec![unit], &live(&["outer"])).unwrap();
    assert_eq!(out.len(), 2);
    assert_eq!(triple(&out[0]), (0x3000, 0x3020, "outer".to_string(), 1));
    assert_eq!(triple(&out[1]), (0x3008, 0x3010, "inner".to_string(), 2));
    assert!(out[1].frame.depth > out[0].frame.depth);
}

#[test]
fn query_point_returns_all_covering_entries() {
    let unit = Unit {
        nodes: vec![
            root(),
            sub_node("outer", 0x3000, 0x20),
            template_node("inner"),
            inline_node(2, 0x3008, 0x8),
        ],
        steps: vec![
            Step { delta: 1, node: 1 },
            Step { delta: 1, node: 3 },
            Step { delta: -1, node: 2 },
        ],
    };
    let map = from(&vec![unit], &live(&["outer"])).unwrap();
    let mut hits = query_point(&map, 0x3009);
    hits.sort_by_key(|e| e.frame.depth);
    assert_eq!(hits.len(), 2);
    assert_eq!(triple(&hits[0]), (0x3000, 0x3020, "outer".to_string(), 1));
    assert_eq!(triple(&hits[1]), (0x3008, 0x3010, "inner".to_string(), 2));
    // outside the inline range only the outer frame covers the address
    let outer_only = query_point(&map, 0x3001);
    assert_eq!(outer_only.len(), 1);
    assert_eq!(outer_only[0].frame.name, "outer");
    // outside every range nothing covers the address
    assert!(query_point(&map, 0x2fff).is_empty());
}

#[test]
fn missing_span_attributes_on_live_function_fail_the_pass() {
    let bad = Node {
        tag: Tag::Subprogram,
        attrs: vec![attr(AttrName::Name, AttrValue::StrRef("foo".to_string()))],
    };
    let unit = Unit { nodes: vec![root(), bad], steps: vec![Step { delta: 1, node: 1 }] };
    let r = frames(&vec![unit], &live(&["foo"]));
    assert_eq!(
        r.unwrap_err(),
        Error::MissingRequiredAttribute { node: 1, attr: AttrName::LowPc }
    );
}

#[test]
fn empty_unit_fails_the_pass() {
    let unit = Unit { nodes: vec![], steps: vec![] };
    let r = frames(&vec![unit], &live(&["foo"]));
    assert_eq!(r.unwrap_err(), Error::EmptyDebugInfo);
}

#[test]
fn nested_live_functions_fail_the_pass() {
    let unit = Unit {
        nodes: vec![root(), sub_node("outer", 0x1000, 0x100), sub_node("inner", 0x1010, 0x10)],
        steps: vec![Step { delta: 1, node: 1 }, Step { delta: 1, node: 2 }],
    };
    let r = frames(&vec![unit], &live(&["outer", "inner"]));
    assert_eq!(r.unwrap_err(), Error::NestedLiveSubprogram);
}

#[test]
fn unexpected_attribute_form_fails_the_pass() {
    let bad = Node {
        tag: Tag::Subprogram,
        attrs: vec![attr(AttrName::LowPc, AttrValue::Udata(0x1000))],
    };
    let unit = Unit { nodes: vec![root(), bad], steps: vec![Step { delta: 1, node: 1 }] };
    let r = frames(&vec![unit], &live(&["foo"]));
    assert_eq!(r.unwrap_err(), Error::UnexpectedAttributeForm { attr: AttrName::LowPc });
}

#[test]
fn unresolvable_origin_fails_the_pass() {
    let bad_inline = Node {
        tag: Tag::InlinedSubroutine,
        attrs: vec![
            attr(AttrName::AbstractOrigin, AttrValue::UnitRef(0)),
            attr(AttrName::LowPc, AttrValue::Addr(0x1004)),
            attr(AttrName::HighPc, AttrValue::Udata(4)),
            attr(AttrName::CallFile, AttrValue::FileIndex(1)),
            attr(AttrName::CallLine, AttrValue::Udata(3)),
        ],
    };
    let unit = Unit {
        nodes: vec![root(), sub_node("outer", 0x1000, 0x10), bad_inline],
        steps: vec![Step { delta: 1, node: 1 }, Step { delta: 1, node: 2 }],
    };
    let r = frames(&vec![unit], &live(&["outer"]));
    assert_eq!(r.unwrap_err(), Error::UnresolvedOrigin);
}

#[test]
fn range_list_takes_the_first_entry() {
    let inline_with_ranges = Node {
        tag: Tag::InlinedSubroutine,
        attrs: vec![
            attr(AttrName::AbstractOrigin, AttrValue::UnitRef(2)),
            attr(AttrName::Ranges, AttrValue::RangeList(vec![(0x4008, 0x4010), (0x4018, 0x4020)])),
            attr(AttrName::CallFile, AttrValue::FileIndex(1)),
            attr(AttrName::CallLine, AttrValue::Udata(3)),
        ],
    };
    let unit = Unit {
        nodes: vec![root(), sub_node("outer", 0x4000, 0x40), template_node("inner"), inline_with_ranges],
        steps: vec![Step { delta: 1, node: 1 }, Step { delta: 1, node: 3 }],
    };
    let out = frames(&vec![unit], &live(&["outer"])).unwrap();
    assert_eq!(out.len(), 2);
    assert_eq!(triple(&out[1]), (0x4008, 0x4010, "inner".to_string(), 2));
}

#[test]
fn linkage_name_wins_over_display_name() {
    let both = Node {
        tag: Tag::Subprogram,
        attrs: vec![
            attr(AttrName::Name, AttrValue::StrRef("display".to_string())),
            attr(AttrName::LinkageName, AttrValue::StrRef("linkage".to_string())),
            attr(AttrName::LowPc, AttrValue::Addr(0x5000)),
            attr(AttrName::HighPc, AttrValue::Udata(0x10)),
        ],
    };
    let unit = Unit { nodes: vec![root(), both], steps: vec![Step { delta: 1, node: 1 }] };
    let out = frames(&vec![unit], &live(&["linkage"])).unwrap();
    assert_eq!(out.len(), 1);
    assert_eq!(out[0].frame.name, "linkage");
}

#[test]
fn unnamed_definition_is_skipped() {
    let nameless = Node {
        tag: Tag::Subprogram,
        attrs: vec![
            attr(AttrName::LowPc, AttrValue::Addr(0x6000)),
            attr(AttrName::HighPc, AttrValue::Udata(0x10)),
        ],
    };
    let unit = Unit { nodes: vec![root(), nameless], steps: vec![Step { delta: 1, node: 1 }] };
    let out = frames(&vec![unit], &live(&["foo"])).unwrap();
    assert!(out.is_empty());
}

#[test]
fn pass_is_idempotent_on_identical_input() {
    let build = || Unit {
        nodes: vec![
            root(),
            sub_node("outer", 0x3000, 0x20),
            template_node("inner"),
            inline_node(2, 0x3008, 0x8),
        ],
        steps: vec![
            Step { delta: 1, node: 1 },
            Step { delta: 1, node: 3 },
            Step { delta: -1, node: 2 },
        ],
    };
    let a = frames(&vec![build()], &live(&["outer"])).unwrap();
    let b = frames(&vec![build()], &live(&["outer"])).unwrap();
    let mut ta: Vec<_> = a.iter().map(triple).collect();
    let mut tb: Vec<_> = b.iter().map(triple).collect();
    ta.sort();
    tb.sort();
    assert_eq!(ta, tb);
}

#[test]
fn demangled_names_lose_their_hash_suffix() {
    let mangled = Node {
        tag: Tag::Subprogram,
        attrs: vec![
            attr(
                AttrName::LinkageName,
                AttrValue::StrRef("_ZN3foo17h0123456789abcdefE".to_string()),
            ),
            attr(AttrName::LowPc, AttrValue::Addr(0x7000)),
            attr(AttrName::HighPc, AttrValue::Udata(0x10)),
        ],
    };
    let unit = Unit { nodes: vec![root(), mangled], steps: vec![Step { delta: 1, node: 1 }] };
    let out = frames(&vec![unit], &live(&["_ZN3foo17h0123456789abcdefE"])).unwrap();
    assert_eq!(out.len(), 1);
    assert_eq!(out[0].frame.name, "foo");
}
