use typenet::protocol::tcp::seq_space::{SeqOffset, SeqPoint};

#[test]
fn point_equality() {
    for num in [0, 1, 42, 1 << 31, u32::MAX].map(SeqPoint::new) {
        assert_eq!(num, num);
    }
}

#[test]
fn point_comparison_is_not_transitive() {
    let a = SeqPoint::new(0);
    let b = SeqPoint::new(0x6000_0000);
    let c = SeqPoint::new(0xC000_0000);

    assert!(a.precedes(b));
    assert!(b.precedes(c));
    assert!(!a.precedes(c));
}

#[test]
#[allow(clippy::nonminimal_bool)]
fn circular_comparison_agrees_with_linear_comparison_over_half_the_space() {
    for [prim_left, prim_right] in [[0, 1], [42, 1 << 31], [0xBEEF_CAFE, 0xCAFE_BEEF]] {
        let [seq_left, seq_right] = [SeqPoint::new(prim_left), SeqPoint::new(prim_right)];

        assert!(seq_left.precedes(seq_right));
        assert!(prim_left < prim_right);
        assert!(!seq_right.precedes(seq_left));
        assert!(!(prim_right < prim_left));
    }
}

#[test]
#[allow(clippy::nonminimal_bool)]
fn circular_comparison_differs_from_linear_comparison_over_half_the_space() {
    for [prim_left, prim_right] in [[u32::MAX, 0], [(1 << 31) + 42, 1], [0xBAAD_D00D, 0xD00D]] {
        let [seq_left, seq_right] = [SeqPoint::new(prim_left), SeqPoint::new(prim_right)];

        assert!(seq_left.precedes(seq_right));
        assert!(!(prim_left < prim_right));
        assert!(!seq_right.precedes(seq_left));
        assert!(prim_right < prim_left);
    }
}

#[test]
fn antipode_and_near_antipode_comparisons_are_defined() {
    let num = SeqPoint::new(42);
    let antipode = num.add(SeqOffset::new(1 << 31));
    let farthest_greater = SeqPoint::new(antipode.value - 1);
    let farthest_less = antipode.add(SeqOffset::new(1));

    assert!(
        num.precedes(farthest_greater) && !farthest_greater.precedes(num),
        "The first defined comparison one below the antipode"
    );
    assert!(
        farthest_less.precedes(num) && !num.precedes(farthest_less),
        "The first defined comparison one above the antipode"
    );
    assert!(
        num.precedes(antipode) && antipode.precedes(num),
        "A number and its antipode each precede the other"
    );
}

#[test]
fn computes_offset_when_rhs_precedes_or_equals_self() {
    for [later, earlier, expected] in [[140, 100, 40], [0, u32::MAX, 1], [42, 42, 0]] {
        assert_eq!(
            SeqPoint::new(later).offset_past(SeqPoint::new(earlier)),
            Some(SeqOffset::new(expected))
        );
    }
}

#[test]
fn returns_none_when_rhs_does_not_precede_or_equal_self() {
    assert_eq!(SeqPoint::new(100).offset_past(SeqPoint::new(140)), None);
}

#[test]
fn true_at_window_start() {
    assert!(SeqPoint::new(100).in_window(SeqPoint::new(100), SeqOffset::new(10)));
}

#[test]
fn true_in_middle() {
    assert!(SeqPoint::new(105).in_window(SeqPoint::new(100), SeqOffset::new(10)));
}

#[test]
fn true_at_last_included_point() {
    assert!(SeqPoint::new(109).in_window(SeqPoint::new(100), SeqOffset::new(10)));
}

#[test]
fn false_at_window_end_exclusive() {
    assert!(!SeqPoint::new(110).in_window(SeqPoint::new(100), SeqOffset::new(10)));
}

#[test]
fn false_before_window_start() {
    assert!(!SeqPoint::new(99).in_window(SeqPoint::new(100), SeqOffset::new(10)));
}

#[test]
fn handles_wraparound() {
    let start = SeqPoint::new(u32::MAX - 4);
    let len = SeqOffset::new(10);
    assert!(SeqPoint::new(2).in_window(start, len));
    assert!(!SeqPoint::new(6).in_window(start, len));
}

#[test]
fn add_wraps_around_the_sequence_space() {
    assert_eq!(SeqPoint::new(u32::MAX).add(SeqOffset::new(2)), SeqPoint::new(1));
}

#[test]
fn saturating_sub_stops_at_zero() {
    assert_eq!(SeqOffset::new(5).saturating_sub(SeqOffset::new(7)), SeqOffset::new(0));
    assert_eq!(SeqOffset::new(7).saturating_sub(SeqOffset::new(5)), SeqOffset::new(2));
}
