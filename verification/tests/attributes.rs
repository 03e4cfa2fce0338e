use attrset::{Attribute, Attributes};

#[test]
fn test_attributes() {
    let mut attributes: Attributes = Attribute::Bold.into();
    assert!(attributes.has(Attribute::Bold));
    attributes.set(Attribute::Italic);
    assert!(attributes.has(Attribute::Italic));
    attributes.unset(Attribute::Italic);
    assert!(!attributes.has(Attribute::Italic));
    attributes.toggle(Attribute::Bold);
    assert!(attributes.is_empty());
}

#[test]
fn test_attributes_const() {
    let attributes: Attributes = Attributes::none()
        .with(Attribute::Bold)
        .with(Attribute::Italic)
        .without(Attribute::Bold);
    assert!(!attributes.has(Attribute::Bold));
    assert!(attributes.has(Attribute::Italic));
}

#[test]
fn test_set_operations() {
    let a = Attributes::none()
        .with(Attribute::Bold)
        .with(Attribute::Italic)
        .with(Attribute::Dim)
        .with(Attribute::Undercurled);

    let a_subset = Attributes::none().with(Attribute::Bold).with(Attribute::Dim);
    let b = Attributes::none()
        .with(Attribute::Bold)
        .with(Attribute::Reverse)
        .with(Attribute::Dim)
        .with(Attribute::Underdashed);

    assert!(a.contains(a));
    assert!(b.contains(b));

    assert!(a.contains(a_subset));
    assert!(!a_subset.contains(a));
    assert!(!a.contains(b));
    assert!(!b.contains(a));

    assert!(a.intersects(b));
    assert!(b.intersects(a));

    let a_b_common = Attributes::from([Attribute::Bold, Attribute::Dim].as_slice());
    assert_eq!(a.intersection(b), a_b_common);
    assert_eq!(b.intersection(a), a_b_common);

    let a_b_union = Attributes::none()
        .with(Attribute::Bold)
        .with(Attribute::Italic)
        .with(Attribute::Dim)
        .with(Attribute::Undercurled)
        .with(Attribute::Reverse)
        .with(Attribute::Underdashed);

    assert_eq!(a.union(b), a_b_union);

    let a_b_diff = Attributes::none().with(Attribute::Italic).with(Attribute::Undercurled);
    let b_a_diff = Attributes::none().with(Attribute::Reverse).with(Attribute::Underdashed);
    assert_eq!(a.difference(b), a_b_diff);
    assert_eq!(b.difference(a), b_a_diff);

    let a_b_symdiff = Attributes::none()
        // in a
        .with(Attribute::Italic)
        .with(Attribute::Undercurled)
        // in b
        .with(Attribute::Reverse)
        .with(Attribute::Underdashed);
    assert_eq!(a.symmetric_difference(b), a_b_symdiff);
    assert_eq!(b.symmetric_difference(a), a_b_symdiff);
    assert_eq!(a.symmetric_difference(b), a_b_diff.union(b_a_diff));

    // empty sets
    let empty_a = Attributes::none();
    let empty_b = Attributes::none();
    assert!(!empty_a.intersects(empty_b))
}

#[test]
fn test_single_capability_is_exact() {
    let single: Attributes = Attribute::Undercurled.into();
    assert!(single.has(Attribute::Undercurled));
    for a in Attribute::all() {
        if a != Attribute::Undercurled {
            assert!(!single.has(a));
        }
    }
    assert_eq!(single.iter(), vec![Attribute::Undercurled]);
}

#[test]
fn test_toggle_is_self_inverse() {
    let original = Attributes::none().with(Attribute::Bold).with(Attribute::Dim);
    let mut attributes = original;
    attributes.toggle(Attribute::Italic);
    assert!(attributes.has(Attribute::Italic));
    attributes.toggle(Attribute::Italic);
    assert_eq!(attributes, original);
    attributes.toggle(Attribute::Bold);
    assert!(!attributes.has(Attribute::Bold));
    attributes.toggle(Attribute::Bold);
    assert_eq!(attributes, original);
}

#[test]
fn test_with_idempotent_and_without_absent() {
    let once = Attributes::none().with(Attribute::Reverse);
    assert_eq!(once.with(Attribute::Reverse), once);
    // `without` on an absent capability changes nothing
    assert_eq!(once.without(Attribute::Hidden), once);
}

#[test]
fn test_contains_reflexive_and_empty() {
    let a = Attributes::none().with(Attribute::Framed).with(Attribute::OverLined);
    let empty = Attributes::none();
    assert!(a.contains(a));
    assert!(empty.contains(empty));
    assert!(a.contains(empty));
    assert!(!empty.contains(a));
}

#[test]
fn test_intersects_symmetric_and_empty() {
    let a = Attributes::none().with(Attribute::SlowBlink).with(Attribute::Hidden);
    let b = Attributes::none().with(Attribute::Hidden).with(Attribute::Encircled);
    let empty = Attributes::none();
    assert_eq!(a.intersects(b), b.intersects(a));
    assert!(a.intersects(b));
    assert!(!a.intersects(empty));
    assert!(!empty.intersects(a));
}

#[test]
fn test_union_and_intersection_laws() {
    let a = Attributes::none().with(Attribute::Bold).with(Attribute::Dim);
    let b = Attributes::none().with(Attribute::Dim).with(Attribute::Italic);
    let c = Attributes::none().with(Attribute::Italic).with(Attribute::Reverse);
    assert_eq!(a.union(b), b.union(a));
    assert_eq!(a.intersection(b), b.intersection(a));
    assert_eq!(a.union(b.union(c)), a.union(b).union(c));
    assert_eq!(a.intersection(b.intersection(c)), a.intersection(b).intersection(c));
    // difference is not commutative for these operands
    assert_ne!(a.difference(b), b.difference(a));
}

#[test]
fn test_symmetric_difference_decomposition() {
    let a = Attributes::none().with(Attribute::Bold).with(Attribute::Underlined);
    let b = Attributes::none().with(Attribute::Underlined).with(Attribute::CrossedOut);
    assert_eq!(a.symmetric_difference(b), a.difference(b).union(b.difference(a)));
    assert_eq!(a.symmetric_difference(b), a ^ b);
}

#[test]
fn test_operator_equivalents() {
    let a = Attributes::none().with(Attribute::Bold).with(Attribute::Dim);
    let b = Attributes::none().with(Attribute::Dim).with(Attribute::Italic);
    assert_eq!(a & b, a.intersection(b));
    assert_eq!(a | b, a.union(b));
    assert_eq!(a ^ b, a.symmetric_difference(b));
    // the single-capability variants promote the capability to a singleton
    let single: Attributes = Attribute::Dim.into();
    assert_eq!(a & Attribute::Dim, a.intersection(single));
    assert_eq!(a | Attribute::Italic, a.union(Attribute::Italic.into()));
    assert_eq!(a ^ Attribute::Bold, a.symmetric_difference(Attribute::Bold.into()));
}

#[test]
fn test_extend_adds_and_removes_nothing() {
    let mut a = Attributes::none().with(Attribute::Bold);
    let b = Attributes::none().with(Attribute::Dim).with(Attribute::Italic);
    a.extend(b);
    assert!(a.has(Attribute::Bold));
    assert!(a.has(Attribute::Dim));
    assert!(a.has(Attribute::Italic));
    assert_eq!(a, Attributes::none().with(Attribute::Bold).union(b));
}

#[test]
fn test_from_slice_ignores_order_and_duplicates() {
    let forward = Attributes::from([Attribute::Bold, Attribute::Dim].as_slice());
    let backward = Attributes::from([Attribute::Dim, Attribute::Bold].as_slice());
    let doubled = Attributes::from(
        [Attribute::Bold, Attribute::Dim, Attribute::Bold].as_slice(),
    );
    assert_eq!(forward, backward);
    assert_eq!(forward, doubled);
    assert_eq!(
        Attributes::from([Attribute::Reverse].as_slice()),
        Attributes::none().with(Attribute::Reverse),
    );
    let no_attributes: [Attribute; 0] = [];
    assert_eq!(Attributes::from(no_attributes.as_slice()), Attributes::none());
}

#[test]
fn test_iter_yields_exactly_the_held_capabilities() {
    let a = Attributes::none()
        .with(Attribute::Reverse)
        .with(Attribute::Bold)
        .with(Attribute::Underdashed);
    let listed = a.iter();
    // catalog enumeration order, not insertion order
    assert_eq!(listed, vec![Attribute::Bold, Attribute::Underdashed, Attribute::Reverse]);
    assert_eq!(listed.len(), 3);
    for attribute in &listed {
        assert!(a.has(*attribute));
    }
    // restartable: a second traversal re-derives the same sequence
    assert_eq!(a.iter(), listed);
    assert!(Attributes::none().iter().is_empty());
}

#[test]
fn test_default_is_empty() {
    let d = Attributes::default();
    assert!(d.is_empty());
    assert_eq!(d, Attributes::none());
}

#[test]
fn test_all_capabilities_are_distinct_flags() {
    let all = Attribute::all();
    assert_eq!(all.len(), 16);
    for (i, a) in all.iter().enumerate() {
        let bytes = a.bytes();
        // each bitmask is a power of two within the flags word
        assert!(bytes.is_power_of_two());
        for (j, b) in all.iter().enumerate() {
            if i != j {
                assert_eq!(bytes & b.bytes(), 0);
            }
        }
    }
}
