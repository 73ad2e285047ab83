use pc2frames::demangle::demangle;

#[test]
fn demangle_strips_the_trailing_hash() {
    assert_eq!(demangle("_ZN3foo17h0123456789abcdefE"), "foo");
    assert_eq!(
        demangle("_ZN4core9panicking5panic17h50b51d19800453c0E"),
        "core::panicking::panic"
    );
}

#[test]
fn demangle_keeps_unrecognized_names() {
    assert_eq!(demangle("main"), "main");
    assert_eq!(demangle(""), "");
}

#[test]
fn demangle_requires_the_exact_suffix_shape() {
    // not hexadecimal after `::h`: kept whole
    assert_eq!(demangle("foo::h0123456789abcdeg"), "foo::h0123456789abcdeg");
    // too few digits: kept whole
    assert_eq!(demangle("foo::h0123456789abcde"), "foo::h0123456789abcde");
    // a name that is nothing but the suffix shape loses all of it
    assert_eq!(demangle("::h0123456789abcdef"), "");
}

#[test]
fn demangle_strips_only_the_last_nineteen_characters() {
    let stripped = demangle("foo::bar::h0123456789abcdef");
    assert_eq!(stripped, "foo::bar");
    assert!(!stripped.is_empty());
}
