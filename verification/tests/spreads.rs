use std::str::FromStr;

use bigdecimal::BigDecimal;
use indicator_store::db_indicator::DbIndicatorInput;
use indicator_store::spread::{pick_explicit_inputs, result_sets_for, InputSpread, ResultSet, EXPLICIT_INPUTS};

fn d(s: &str) -> BigDecimal {
    BigDecimal::from_str(s).unwrap()
}

fn row(index: i16, input: Option<&str>, range: Option<(&str, &str, &str)>) -> DbIndicatorInput {
    DbIndicatorInput {
        indicator_id: 1,
        index,
        input: input.map(d),
        start: range.map(|r| d(r.0)),
        stop: range.map(|r| d(r.1)),
        step: range.map(|r| d(r.2)),
    }
}

#[test]
fn fixed_inputs_offer_their_value() {
    let rows = vec![
        row(0, Some("1.5"), None),
        row(1, None, Some(("1", "3", "1"))),
        row(2, Some("9"), Some(("1", "3", "1"))),
        row(3, None, None),
    ];
    let s = InputSpread::from_fixed_inputs(&rows);
    assert_eq!(s.values(0), Some(&vec![d("1.5")]));
    assert!(!s.contains_index(1));
    assert!(!s.contains_index(2));
    assert!(!s.contains_index(3));
    assert!(s.contains_index(0));
}

#[test]
fn a_later_fixed_input_wins() {
    let rows = vec![row(4, Some("1"), None), row(4, Some("2"), None)];
    let s = InputSpread::from_fixed_inputs(&rows);
    assert_eq!(s.values(4), Some(&vec![d("2")]));
}

#[test]
fn insert_offers_a_range_and_replaces() {
    let mut s = InputSpread::new();
    assert!(!s.contains_index(5));
    s.insert(5, vec![d("1"), d("2"), d("3")]);
    s.insert(6, vec![d("7")]);
    assert_eq!(s.values(5), Some(&vec![d("1"), d("2"), d("3")]));
    s.insert(5, vec![d("4")]);
    assert_eq!(s.values(5), Some(&vec![d("4")]));
    assert_eq!(s.values(6), Some(&vec![d("7")]));
    assert_eq!(s.values(7), None);
}

#[test]
fn explicit_inputs_pick_from_the_spread() {
    let mut s = InputSpread::new();
    s.insert(0, vec![d("3")]);
    s.insert(2, vec![d("10"), d("20"), d("30")]);
    s.insert(14, vec![d("0.5")]);
    s.insert(15, vec![d("99")]);
    let e = pick_explicit_inputs(77, &s);
    assert_eq!(e.indicator_id, 77);
    assert_eq!(e.inputs.len(), EXPLICIT_INPUTS);
    assert_eq!(e.inputs[0], Some(d("3")));
    assert_eq!(e.inputs[1], None);
    let two = e.inputs[2].clone().unwrap();
    assert!(two == d("10") || two == d("20") || two == d("30"));
    for k in 3..14 {
        assert_eq!(e.inputs[k], None);
    }
    assert_eq!(e.inputs[14], Some(d("0.5")));
}

#[test]
fn result_sets_link_the_result_to_each_input_row() {
    let sets = result_sets_for(8, &vec![3, 4, 5]);
    assert_eq!(
        sets,
        vec![
            ResultSet { result_id: 8, inputs_id: 3 },
            ResultSet { result_id: 8, inputs_id: 4 },
            ResultSet { result_id: 8, inputs_id: 5 },
        ]
    );
    assert!(result_sets_for(8, &vec![]).is_empty());
}
