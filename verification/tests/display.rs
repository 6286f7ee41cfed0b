use typenet::protocol::display::with_thousands_separators;

/// Removes commas from `s`, parses the result, and then adds commas back to that result.
fn comma_round_trip(s: &str) -> String {
    let parsed: u64 = s.replace(',', "").parse().expect("test inputs are numbers");
    with_thousands_separators(parsed)
}

#[test]
fn separates_all_widths() {
    for s in ["65,535", "4,321", "321", "21", "1", "0"] {
        assert_eq!(s, comma_round_trip(s));
    }

    for s in [
        "4,294,967,295",
        "987,654,321",
        "87,654,321",
        "7,654,321",
        "654,321",
        "54,321",
        "4,321",
        "321",
        "21",
        "1",
        "0",
    ] {
        assert_eq!(s, comma_round_trip(s));
    }
}

#[test]
fn handles_trailing_and_internal_zeros() {
    for s in ["60,000", "60,001", "4,000", "4,001", "300", "301", "20"] {
        assert_eq!(s, comma_round_trip(s));
    }

    for s in [
        "4,000,000,000",
        "4,000,000,001",
        "900,000,000",
        "900,000,001",
        "80,000,000",
        "80,000,001",
        "4,000",
        "4,001",
        "300",
        "301",
        "20",
    ] {
        assert_eq!(s, comma_round_trip(s));
    }
}

#[test]
fn largest_value_is_separated() {
    assert_eq!(with_thousands_separators(u64::MAX), "18,446,744,073,709,551,615");
}
