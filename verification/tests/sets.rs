use std::str::FromStr;

use bigdecimal::BigDecimal;
use indicator_store::db_indicator::DbIndiFunc;
use indicator_store::db_indicator_set::{indicator_set_from_entries, IndiFunc};
use indicator_store::loader::{func_for_dir, funcs_to_store};
use indicator_store::params::{Indicator, IndicatorSet};
use indicator_store::population::{links_from_picks, pick_indicators, random_population_links, SetIndicator};

fn indi(name: &str) -> Indicator {
    Indicator { name: name.to_string(), shift: 0, inputs: vec![vec![BigDecimal::from_str("1").unwrap()]] }
}

#[test]
fn empty_entries_give_an_empty_set() {
    let s = indicator_set_from_entries(vec![]);
    assert!(s.confirm.is_none() && s.confirm2.is_none() && s.confirm3.is_none());
    assert!(s.baseline.is_none() && s.volume.is_none() && s.cont.is_none() && s.exit.is_none());
    let d = IndicatorSet::default();
    assert!(d.confirm.is_none() && d.exit.is_none() && d.cont.is_none());
}

#[test]
fn each_function_fills_its_slot() {
    let s = indicator_set_from_entries(vec![
        (indi("a"), IndiFunc::Confirm),
        (indi("b"), IndiFunc::Confirm2),
        (indi("c"), IndiFunc::Confirm3),
        (indi("d"), IndiFunc::Baseline),
        (indi("e"), IndiFunc::Volume),
        (indi("f"), IndiFunc::Continue),
        (indi("g"), IndiFunc::Exit),
    ]);
    assert_eq!(s.confirm.unwrap().name, "a");
    assert_eq!(s.confirm2.unwrap().name, "b");
    assert_eq!(s.confirm3.unwrap().name, "c");
    assert_eq!(s.baseline.unwrap().name, "d");
    assert_eq!(s.volume.unwrap().name, "e");
    assert_eq!(s.cont.unwrap().name, "f");
    assert_eq!(s.exit.unwrap().name, "g");
}

#[test]
fn a_later_entry_replaces_an_earlier_one() {
    let s = indicator_set_from_entries(vec![
        (indi("first"), IndiFunc::Exit),
        (indi("base"), IndiFunc::Baseline),
        (indi("second"), IndiFunc::Exit),
    ]);
    assert_eq!(s.exit.unwrap().name, "second");
    assert_eq!(s.baseline.unwrap().name, "base");
    assert!(s.confirm.is_none());
}

#[test]
fn assign_replaces_only_its_slot() {
    let mut s = IndicatorSet::empty();
    s.assign(IndiFunc::Volume, indi("v1"));
    s.assign(IndiFunc::Volume, indi("v2"));
    s.assign(IndiFunc::Confirm, indi("c"));
    assert_eq!(s.volume.unwrap().name, "v2");
    assert_eq!(s.confirm.unwrap().name, "c");
    assert!(s.exit.is_none());
}

#[test]
fn function_conversions_go_both_ways() {
    let all = [
        IndiFunc::Confirm,
        IndiFunc::Confirm2,
        IndiFunc::Confirm3,
        IndiFunc::Baseline,
        IndiFunc::Volume,
        IndiFunc::Continue,
        IndiFunc::Exit,
    ];
    for f in all.iter() {
        let g = DbIndiFunc::from(*f);
        assert_eq!(IndiFunc::from(g), *f);
    }
    assert_eq!(DbIndiFunc::from(IndiFunc::Continue), DbIndiFunc::Continue);
    assert_eq!(IndiFunc::from(DbIndiFunc::Confirm2), IndiFunc::Confirm2);
}

#[test]
fn directory_names_give_functions() {
    assert_eq!(func_for_dir("confirm"), Some(DbIndiFunc::Confirm));
    assert_eq!(func_for_dir("baseline"), Some(DbIndiFunc::Baseline));
    assert_eq!(func_for_dir("exit"), Some(DbIndiFunc::Exit));
    assert_eq!(func_for_dir("volume"), Some(DbIndiFunc::Volume));
    assert_eq!(func_for_dir("continue"), Some(DbIndiFunc::Continue));
    assert_eq!(func_for_dir("confirm2"), None);
    assert_eq!(func_for_dir("Confirm"), None);
    assert_eq!(func_for_dir(""), None);
}

#[test]
fn confirmation_indicators_are_stored_five_times() {
    assert_eq!(
        funcs_to_store(DbIndiFunc::Confirm),
        vec![
            DbIndiFunc::Confirm,
            DbIndiFunc::Confirm2,
            DbIndiFunc::Confirm3,
            DbIndiFunc::Exit,
            DbIndiFunc::Continue
        ]
    );
}

#[test]
fn baseline_indicators_are_stored_six_times() {
    assert_eq!(
        funcs_to_store(DbIndiFunc::Baseline),
        vec![
            DbIndiFunc::Baseline,
            DbIndiFunc::Confirm,
            DbIndiFunc::Confirm2,
            DbIndiFunc::Confirm3,
            DbIndiFunc::Exit,
            DbIndiFunc::Continue
        ]
    );
}

#[test]
fn other_indicators_are_stored_once() {
    assert_eq!(funcs_to_store(DbIndiFunc::Exit), vec![DbIndiFunc::Exit]);
    assert_eq!(funcs_to_store(DbIndiFunc::Volume), vec![DbIndiFunc::Volume]);
    assert_eq!(funcs_to_store(DbIndiFunc::Continue), vec![DbIndiFunc::Continue]);
}

#[test]
fn links_follow_the_picks() {
    let links = links_from_picks(&vec![10, 20], &vec![vec![1, 2, 3], vec![4, 5, 6]]);
    let expected: Vec<SetIndicator> = vec![(10, 1), (10, 2), (10, 3), (20, 4), (20, 5), (20, 6)]
        .into_iter()
        .map(|(s, i)| SetIndicator { indicator_set_id: s, indicator_id: i })
        .collect();
    assert_eq!(links, expected);
}

#[test]
fn single_candidates_are_always_picked() {
    let links = random_population_links(&vec![5, 6, 7], &vec![vec![100], vec![200]]);
    let expected: Vec<SetIndicator> = vec![(5, 100), (5, 200), (6, 100), (6, 200), (7, 100), (7, 200)]
        .into_iter()
        .map(|(s, i)| SetIndicator { indicator_set_id: s, indicator_id: i })
        .collect();
    assert_eq!(links, expected);
}

#[test]
fn random_picks_are_candidates_of_their_function() {
    let candidates = vec![vec![1, 2, 3], vec![10, 20], vec![7]];
    let picks = pick_indicators(40, &candidates);
    assert_eq!(picks.len(), 40);
    for p in picks.iter() {
        assert_eq!(p.len(), 3);
        for (j, id) in p.iter().enumerate() {
            assert!(candidates[j].contains(id));
        }
    }
    let links = random_population_links(&vec![1, 2], &candidates);
    assert_eq!(links.len(), 6);
    assert_eq!(links[0].indicator_set_id, 1);
    assert_eq!(links[5].indicator_set_id, 2);
    assert_eq!(links[5].indicator_id, 7);
}

#[test]
fn no_sets_give_no_links() {
    assert!(random_population_links(&vec![], &vec![vec![1]]).is_empty());
    assert!(links_from_picks(&vec![], &vec![]).is_empty());
}
