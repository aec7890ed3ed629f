use std::str::FromStr;

use bigdecimal::BigDecimal;
use indicator_store::db_indicator::{
    indicator_input_rows, DbIndiFunc, DbIndicator, DbIndicatorInput, NewDbIndicator,
};
use indicator_store::input_order::sort_inputs_by_index;
use indicator_store::params::Indicator;

fn d(s: &str) -> BigDecimal {
    BigDecimal::from_str(s).unwrap()
}

fn ds(v: &[&str]) -> Vec<BigDecimal> {
    v.iter().map(|s| d(s)).collect()
}

fn row(index: i16, input: Option<&str>, range: Option<(&str, &str, &str)>) -> DbIndicatorInput {
    DbIndicatorInput {
        indicator_id: 7,
        index,
        input: input.map(d),
        start: range.map(|r| d(r.0)),
        stop: range.map(|r| d(r.1)),
        step: range.map(|r| d(r.2)),
    }
}

fn db_indicator(name: &str, shift: i16) -> DbIndicator {
    DbIndicator {
        indicator_id: 7,
        parent_id: None,
        child_id: None,
        name: name.to_string(),
        shift,
        func: DbIndiFunc::Confirm,
    }
}

fn sample_inputs() -> Vec<Vec<BigDecimal>> {
    vec![ds(&["0.6"]), ds(&["20", "40", "2"]), ds(&["14", "10", "20", "1"])]
}

#[test]
fn input_rows_hold_fixed_values_ranges_and_both() {
    let rows = indicator_input_rows(7, sample_inputs());
    assert_eq!(rows.len(), 3);
    assert_eq!(rows[0].indicator_id, 7);
    assert_eq!(rows[0].index, 0);
    assert_eq!(rows[0].input, Some(d("0.6")));
    assert_eq!(rows[0].start, None);
    assert_eq!(rows[0].stop, None);
    assert_eq!(rows[0].step, None);
    assert_eq!(rows[1].index, 1);
    assert_eq!(rows[1].input, None);
    assert_eq!(rows[1].start, Some(d("20")));
    assert_eq!(rows[1].stop, Some(d("40")));
    assert_eq!(rows[1].step, Some(d("2")));
    assert_eq!(rows[2].index, 2);
    assert_eq!(rows[2].input, Some(d("14")));
    assert_eq!(rows[2].start, Some(d("10")));
    assert_eq!(rows[2].stop, Some(d("20")));
    assert_eq!(rows[2].step, Some(d("1")));
}

#[test]
fn input_rows_of_no_inputs_is_empty() {
    let rows = indicator_input_rows(3, vec![]);
    assert!(rows.is_empty());
}

#[test]
fn indicator_from_rows_in_order() {
    let rows = indicator_input_rows(7, sample_inputs());
    let indi = Indicator::from_db(db_indicator("sma", 2), rows);
    assert_eq!(indi.name, "sma");
    assert_eq!(indi.shift, 2);
    assert_eq!(indi.inputs, sample_inputs());
}

#[test]
fn indicator_from_rows_read_in_any_order() {
    let mut rows = indicator_input_rows(7, sample_inputs());
    rows.reverse();
    let r = rows.remove(0);
    rows.push(r);
    let indi = Indicator::from_db(db_indicator("sma", 0), rows);
    assert_eq!(indi.inputs, sample_inputs());
}

#[test]
fn store_then_load_gives_back_the_indicator() {
    let stored_indi = Indicator { name: "rsi".to_string(), shift: 200, inputs: sample_inputs() };
    let new_row = NewDbIndicator::for_store(&stored_indi, None, DbIndiFunc::Baseline);
    let stored = DbIndicator {
        indicator_id: 11,
        parent_id: new_row.parent_id,
        child_id: new_row.child_id,
        name: new_row.indicator_name.clone(),
        shift: new_row.shift,
        func: new_row.func,
    };
    let mut rows = indicator_input_rows(11, stored_indi.inputs.clone());
    rows.swap(0, 2);
    let loaded = Indicator::from_db(stored, rows);
    assert_eq!(loaded.name, stored_indi.name);
    assert_eq!(loaded.shift, stored_indi.shift);
    assert_eq!(loaded.inputs, stored_indi.inputs);
}

#[test]
fn rows_without_range_parts_give_only_the_fixed_value() {
    let mut partial = row(0, Some("5"), None);
    partial.start = Some(d("1"));
    let indi = Indicator::from_db(db_indicator("x", 0), vec![partial]);
    assert_eq!(indi.inputs, vec![ds(&["5"])]);
}

#[test]
fn shift_is_read_back_as_its_low_byte() {
    let indi = Indicator::from_db(db_indicator("x", 300), vec![]);
    assert_eq!(indi.shift, 44);
    assert!(indi.inputs.is_empty());
}

#[test]
fn sort_by_index_is_stable() {
    let rows = vec![
        row(2, Some("1"), None),
        row(0, Some("2"), None),
        row(2, Some("3"), None),
        row(1, Some("4"), None),
        row(0, Some("5"), None),
    ];
    let sorted = sort_inputs_by_index(rows);
    let got: Vec<(i16, BigDecimal)> =
        sorted.into_iter().map(|r| (r.index, r.input.unwrap())).collect();
    assert_eq!(
        got,
        vec![(0, d("2")), (0, d("5")), (1, d("4")), (2, d("1")), (2, d("3"))]
    );
}

#[test]
fn new_row_from_borrowed_indicator() {
    let indi = Indicator { name: "ema".to_string(), shift: 3, inputs: vec![] };
    let r = NewDbIndicator::from((DbIndiFunc::Volume, &indi));
    assert_eq!(r.parent_id, None);
    assert_eq!(r.child_id, None);
    assert_eq!(r.indicator_name, "ema");
    assert_eq!(r.shift, 3);
    assert_eq!(r.func, DbIndiFunc::Volume);
}

#[test]
fn new_row_from_owned_indicator() {
    let indi = Indicator { name: "kama".to_string(), shift: 255, inputs: sample_inputs() };
    let r = NewDbIndicator::from((DbIndiFunc::Exit, indi));
    assert_eq!(r.parent_id, None);
    assert_eq!(r.child_id, None);
    assert_eq!(r.indicator_name, "kama");
    assert_eq!(r.shift, 255);
    assert_eq!(r.func, DbIndiFunc::Exit);
}

#[test]
fn new_row_for_store_has_the_parent() {
    let indi = Indicator { name: "atr".to_string(), shift: 1, inputs: vec![] };
    let r = NewDbIndicator::for_store(&indi, Some(42), DbIndiFunc::Continue);
    assert_eq!(r.parent_id, Some(42));
    assert_eq!(r.child_id, None);
    assert_eq!(r.indicator_name, "atr");
    assert_eq!(r.shift, 1);
    assert_eq!(r.func, DbIndiFunc::Continue);
}

#[test]
fn child_record_points_to_its_parent() {
    let mut parent = db_indicator("macd", -4);
    parent.indicator_id = 99;
    parent.func = DbIndiFunc::Confirm3;
    let c = parent.child_record();
    assert_eq!(c.parent_id, Some(99));
    assert_eq!(c.child_id, None);
    assert_eq!(c.indicator_name, "macd");
    assert_eq!(c.shift, -4);
    assert_eq!(c.func, DbIndiFunc::Confirm3);
}
