//! The spread of an indicator's inputs: for each input index, the values a
//! test run may pick for it. A fixed input offers its one value; a range
//! offers the values from its start to its stop in steps.
use vstd::prelude::*;

use bigdecimal::BigDecimal;

use crate::db_indicator::DbIndicatorInput;
use crate::decimal::copy_decimal;
use crate::random::choose_from;

verus! {

/// The number of input slots of an explicit input row.
pub const EXPLICIT_INPUTS: usize = 15;

/// The values offered for each input index, one entry per index.
pub struct InputSpread {
    entries: Vec<(i16, Vec<BigDecimal>)>,
}

/// The map that a list of entries describes: each index to its values, the
/// later entry winning where an index occurs twice.
pub open spec fn entries_map(entries: Seq<(i16, Vec<BigDecimal>)>) -> Map<i16, Seq<BigDecimal>>
    decreases entries.len(),
{
    if entries.len() == 0 {
        Map::empty()
    } else {
        entries_map(entries.drop_last()).insert(entries.last().0, entries.last().1@)
    }
}

/// No index occurs in two entries.
pub open spec fn distinct_indices(entries: Seq<(i16, Vec<BigDecimal>)>) -> bool {
    forall|i: int, j: int| 0 <= i < j < entries.len() ==> #[trigger] entries[i].0 != #[trigger] entries[j].0
}

proof fn lemma_entries_map(entries: Seq<(i16, Vec<BigDecimal>)>)
    requires
        distinct_indices(entries),
    ensures
        forall|k: i16| #[trigger] entries_map(entries).dom().contains(k)
            <==> exists|i: int| 0 <= i < entries.len() && entries[i].0 == k,
        forall|i: int| 0 <= i < entries.len() ==> #[trigger] entries_map(entries)[entries[i].0] == entries[i].1@,
    decreases entries.len(),
{
    if entries.len() > 0 {
        let d = entries.drop_last();
        assert(distinct_indices(d)) by {
            assert forall|i: int, j: int| 0 <= i < j < d.len() implies #[trigger] d[i].0 != #[trigger] d[j].0 by {
                assert(entries[i].0 != entries[j].0);
            }
        }
        lemma_entries_map(d);
        let n = entries.len() - 1;
        assert forall|k: i16| #[trigger] entries_map(entries).dom().contains(k)
            <==> exists|i: int| 0 <= i < entries.len() && entries[i].0 == k by {
            if entries_map(entries).dom().contains(k) && k != entries[n].0 {
                assert(entries_map(d).dom().contains(k));
                let i = choose|i: int| 0 <= i < d.len() && d[i].0 == k;
                assert(entries[i].0 == k);
            }
            if entries_map(entries).dom().contains(k) && k == entries[n].0 {
                assert(entries[n].0 == k);
            }
            if exists|i: int| 0 <= i < entries.len() && entries[i].0 == k {
                let i = choose|i: int| 0 <= i < entries.len() && entries[i].0 == k;
                if i < n {
                    assert(d[i].0 == k);
                    assert(entries_map(d).dom().contains(k));
                }
            }
        }
        assert forall|i: int| 0 <= i < entries.len() implies #[trigger] entries_map(entries)[entries[i].0]
            == entries[i].1@ by {
            if i < n {
                assert(d[i] == entries[i]);
                assert(entries[i].0 != entries[n].0);
                assert(entries_map(d)[d[i].0] == d[i].1@);
            }
        }
    }
}

impl InputSpread {
    /// The entries hold each index at most once.
    #[verifier::type_invariant]
    spec fn wf(&self) -> bool {
        distinct_indices(self.entries@)
    }

    /// The values offered for each index.
    pub closed spec fn map(&self) -> Map<i16, Seq<BigDecimal>> {
        entries_map(self.entries@)
    }

    /// A spread with no index.
    pub fn new() -> (s: InputSpread)
        ensures
            s.map() == Map::<i16, Seq<BigDecimal>>::empty(),
    {
        InputSpread { entries: Vec::new() }
    }

    /// Where index `k` stands in the entries, if it does.
    fn position(&self, k: i16) -> (p: Option<usize>)
        ensures
            p is None ==> !self.map().dom().contains(k),
            p matches Some(i) ==> i < self.entries@.len() && self.entries@[i as int].0 == k,
    {
        proof {
            use_type_invariant(self);
            lemma_entries_map(self.entries@);
        }
        let mut i: usize = 0;
        while i < self.entries.len()
            invariant
                i <= self.entries@.len(),
                forall|j: int| 0 <= j < i ==> #[trigger] self.entries@[j].0 != k,
            decreases self.entries.len() - i,
        {
            if self.entries[i].0 == k {
                return Some(i);
            }
            i += 1;
        }
        None
    }

    /// Whether some values are offered for index `k`.
    pub fn contains_index(&self, k: i16) -> (b: bool)
        ensures
            b == self.map().dom().contains(k),
    {
        proof {
            use_type_invariant(self);
            lemma_entries_map(self.entries@);
        }
        match self.position(k) {
            Some(_) => true,
            None => false,
        }
    }

    /// The values offered for index `k`, if any.
    pub fn values(&self, k: i16) -> (v: Option<&Vec<BigDecimal>>)
        ensures
            v is None <==> !self.map().dom().contains(k),
            v matches Some(vals) ==> vals@ == self.map()[k],
    {
        proof {
            use_type_invariant(self);
            lemma_entries_map(self.entries@);
        }
        match self.position(k) {
            Some(i) => Some(&self.entries[i].1),
            None => None,
        }
    }

    /// Offers `values` for index `k`, replacing what was offered for it.
    pub fn insert(&mut self, k: i16, values: Vec<BigDecimal>)
        ensures
            final(self).map() == old(self).map().insert(k, values@),
    {
        let ghost vs = values@;
        proof {
            use_type_invariant(&*self);
            lemma_entries_map(self.entries@);
        }
        let pos = self.position(k);
        let mut entries: Vec<(i16, Vec<BigDecimal>)> = Vec::new();
        std::mem::swap(&mut entries, &mut self.entries);
        match pos {
            Some(i) => {
                let ghost before = entries@;
                let _ = entries.remove(i);
                entries.push((k, values));
                let ghost after = entries@;
                proof {
                    assert(distinct_indices(after)) by {
                        assert forall|a: int, b: int| 0 <= a < b < after.len() implies #[trigger] after[a].0
                            != #[trigger] after[b].0 by {
                            let fa = if a < i { a } else { a + 1 };
                            if b < after.len() - 1 {
                                let fb = if b < i { b } else { b + 1 };
                                assert(after[a] == before[fa] && after[b] == before[fb]);
                            } else {
                                assert(after[a] == before[fa]);
                                assert(fa != i);
                            }
                        }
                    }
                    lemma_entries_map(after);
                    lemma_entries_map(before);
                    assert(entries_map(after) =~= entries_map(before).insert(k, vs)) by {
                        assert forall|x: i16| #[trigger] entries_map(after).dom().contains(x)
                            == entries_map(before).insert(k, vs).dom().contains(x) by {
                            if x != k && entries_map(before).dom().contains(x) {
                                let j = choose|j: int| 0 <= j < before.len() && before[j].0 == x;
                                assert(j != i);
                                let fj = if j < i { j } else { j - 1 };
                                assert(after[fj] == before[j]);
                            }
                            if x != k && entries_map(after).dom().contains(x) {
                                let j = choose|j: int| 0 <= j < after.len() && after[j].0 == x;
                                assert(j < after.len() - 1);
                                let fj = if j < i { j } else { j + 1 };
                                assert(after[j] == before[fj]);
                            }
                        }
                        assert forall|x: i16| #[trigger] entries_map(after).dom().contains(x) implies entries_map(
                            after,
                        )[x] == entries_map(before).insert(k, vs)[x] by {
                            let j = choose|j: int| 0 <= j < after.len() && after[j].0 == x;
                            if j < after.len() - 1 {
                                let fj = if j < i { j } else { j + 1 };
                                assert(after[j] == before[fj]);
                            }
                        }
                    }
                }
                self.entries = entries;
            },
            None => {
                let ghost before = entries@;
                entries.push((k, values));
                proof {
                    let after = entries@;
                    assert(distinct_indices(after)) by {
                        assert forall|a: int, b: int| 0 <= a < b < after.len() implies #[trigger] after[a].0
                            != #[trigger] after[b].0 by {
                            if b == after.len() - 1 {
                                assert(after[a] == before[a]);
                                assert(entries_map(before).dom().contains(before[a].0));
                            } else {
                                assert(after[a] == before[a] && after[b] == before[b]);
                            }
                        }
                    }
                    assert(after.drop_last() =~= before);
                }
                self.entries = entries;
            },
        }
    }
}

/// The spread of the fixed inputs among input rows: each row without a
/// range but with a fixed value offers that one value for its index, a later
/// row winning over an earlier one with the same index.
pub open spec fn fixed_spread(rows: Seq<DbIndicatorInput>) -> Map<i16, Seq<BigDecimal>>
    decreases rows.len(),
{
    if rows.len() == 0 {
        Map::empty()
    } else {
        let m = fixed_spread(rows.drop_last());
        let r = rows.last();
        if r.start is None && r.input is Some {
            m.insert(r.index, seq![r.input.unwrap()])
        } else {
            m
        }
    }
}

impl InputSpread {
    /// The spread of the fixed inputs among `rows`.
    pub fn from_fixed_inputs(rows: &Vec<DbIndicatorInput>) -> (s: InputSpread)
        ensures
            s.map() == fixed_spread(rows@),
    {
        let mut spread = InputSpread::new();
        let mut i: usize = 0;
        while i < rows.len()
            invariant
                i <= rows@.len(),
                spread.map() == fixed_spread(rows@.take(i as int)),
            decreases rows.len() - i,
        {
            let row = &rows[i];
            proof {
                assert(rows@.take(i + 1).drop_last() =~= rows@.take(i as int));
                assert(rows@.take(i + 1).last() == rows@[i as int]);
            }
            if row.start.is_none() {
                match &row.input {
                    Some(x) => {
                        let mut v: Vec<BigDecimal> = Vec::new();
                        v.push(copy_decimal(x));
                        proof {
                            assert(v@ =~= seq![*x]);
                        }
                        spread.insert(row.index, v);
                    },
                    None => {},
                }
            }
            i += 1;
        }
        assert(rows@.take(rows@.len() as int) =~= rows@);
        spread
    }
}

/// The range of a ranged input row: its index and its start, stop and step.
#[derive(Debug)]
pub struct InputRange {
    pub index: i16,
    pub start: BigDecimal,
    pub stop: BigDecimal,
    pub step: BigDecimal,
}

/// The rows that hold a range (a start), in order.
pub open spec fn ranged_rows(rows: Seq<DbIndicatorInput>) -> Seq<DbIndicatorInput>
    decreases rows.len(),
{
    if rows.len() == 0 {
        Seq::empty()
    } else if rows.last().start is Some {
        ranged_rows(rows.drop_last()).push(rows.last())
    } else {
        ranged_rows(rows.drop_last())
    }
}

/// The range a ranged row holds.
pub open spec fn range_of(r: DbIndicatorInput) -> InputRange {
    InputRange { index: r.index, start: r.start.unwrap(), stop: r.stop.unwrap(), step: r.step.unwrap() }
}

/// Every row with a start also has a stop and a step.
pub open spec fn ranges_complete(rows: Seq<DbIndicatorInput>) -> bool {
    forall|i: int| 0 <= i < rows.len() && (#[trigger] rows[i]).start is Some ==> rows[i].stop is Some && rows[i].step is Some
}

/// The ranges of the ranged rows among `rows`, in order.
pub fn ranges_of(rows: &Vec<DbIndicatorInput>) -> (ranges: Vec<InputRange>)
    requires
        ranges_complete(rows@),
    ensures
        ranges@ == ranged_rows(rows@).map_values(|r: DbIndicatorInput| range_of(r)),
        ranges@.len() == ranged_rows(rows@).len(),
        forall|k: int| 0 <= k < ranges@.len() ==> {
            let g = #[trigger] ranges@[k];
            let r = ranged_rows(rows@)[k];
            &&& g.index == r.index
            &&& r.start == Some(g.start)
            &&& r.stop == Some(g.stop)
            &&& r.step == Some(g.step)
        },
{
    let mut ranges: Vec<InputRange> = Vec::new();
    let mut i: usize = 0;
    while i < rows.len()
        invariant
            i <= rows@.len(),
            ranges_complete(rows@),
            ranges@ == ranged_rows(rows@.take(i as int)).map_values(|r: DbIndicatorInput| range_of(r)),
        decreases rows.len() - i,
    {
        let row = &rows[i];
        proof {
            assert(rows@.take(i + 1).drop_last() =~= rows@.take(i as int));
            assert(rows@.take(i + 1).last() == rows@[i as int]);
        }
        match (&row.start, &row.stop, &row.step) {
            (Some(a), Some(b), Some(c)) => {
                let r = InputRange {
                    index: row.index,
                    start: copy_decimal(a),
                    stop: copy_decimal(b),
                    step: copy_decimal(c),
                };
                ranges.push(r);
                proof {
                    let prev = ranged_rows(rows@.take(i as int));
                    assert(ranged_rows(rows@.take(i + 1)) == prev.push(rows@[i as int]));
                    assert(ranged_rows(rows@.take(i + 1)).map_values(|r: DbIndicatorInput| range_of(r))
                        =~= prev.map_values(|r: DbIndicatorInput| range_of(r)).push(range_of(rows@[i as int])));
                }
            },
            _ => {
                assert(rows@[i as int].start is None);
            },
        }
        i += 1;
    }
    assert(rows@.take(rows@.len() as int) =~= rows@);
    proof {
        lemma_ranges_fields(rows@);
        let rr = ranged_rows(rows@);
        assert forall|k: int| 0 <= k < ranges@.len() implies #[trigger] ranges@[k] == range_of(rr[k]) by {}
    }
    ranges
}

/// The ranged rows are the rows with a start, in order: each holds a start
/// and is one of the rows, and each row with a start is among them.
pub proof fn lemma_ranged_rows(rows: Seq<DbIndicatorInput>)
    ensures
        forall|k: int| 0 <= k < ranged_rows(rows).len() ==> (#[trigger] ranged_rows(rows)[k]).start is Some,
        forall|k: int| 0 <= k < ranged_rows(rows).len() ==> rows.contains(#[trigger] ranged_rows(rows)[k]),
        forall|i: int| 0 <= i < rows.len() && (#[trigger] rows[i]).start is Some ==> ranged_rows(rows).contains(rows[i]),
        ranged_rows(rows).len() <= rows.len(),
    decreases rows.len(),
{
    if rows.len() > 0 {
        let d = rows.drop_last();
        lemma_ranged_rows(d);
        let rr = ranged_rows(rows);
        let rd = ranged_rows(d);
        assert forall|k: int| 0 <= k < rr.len() implies rows.contains(#[trigger] rr[k]) by {
            if k < rd.len() {
                assert(rr[k] == rd[k]);
                assert(d.contains(rd[k]));
                let j = choose|j: int| 0 <= j < d.len() && d[j] == rd[k];
                assert(rows[j] == d[j]);
            } else {
                assert(rr[k] == rows[rows.len() - 1]);
            }
        }
        assert forall|i: int| 0 <= i < rows.len() && (#[trigger] rows[i]).start is Some implies rr.contains(rows[i]) by {
            if i < rows.len() - 1 {
                assert(d[i] == rows[i]);
                assert(rd.contains(d[i]));
                let j = choose|j: int| 0 <= j < rd.len() && rd[j] == d[i];
                assert(rr[j] == rd[j]);
            } else {
                assert(rr[rr.len() - 1] == rows[i]);
            }
        }
    }
}

/// The range taken from each ranged row has that row's index, start, stop
/// and step, in that order, where the rows with a start also have a stop
/// and a step.
pub proof fn lemma_ranges_fields(rows: Seq<DbIndicatorInput>)
    requires
        ranges_complete(rows),
    ensures
        forall|k: int| 0 <= k < ranged_rows(rows).len() ==> {
            let r = #[trigger] ranged_rows(rows)[k];
            let g = range_of(r);
            &&& g.index == r.index
            &&& r.start == Some(g.start)
            &&& r.stop == Some(g.stop)
            &&& r.step == Some(g.step)
        },
{
    lemma_ranged_rows(rows);
    let rr = ranged_rows(rows);
    assert forall|k: int| 0 <= k < rr.len() implies {
        let r = #[trigger] rr[k];
        let g = range_of(r);
        &&& g.index == r.index
        &&& r.start == Some(g.start)
        &&& r.stop == Some(g.stop)
        &&& r.step == Some(g.step)
    } by {
        assert(rows.contains(rr[k]));
        let j = choose|j: int| 0 <= j < rows.len() && rows[j] == rr[k];
        assert(rows[j].start is Some);
    }
}

/// A row of explicit inputs of one indicator: for each input slot, the value
/// picked for it, or nothing.
#[derive(Debug)]
pub struct ExplicitInputs {
    pub indicator_id: i32,
    pub inputs: Vec<Option<BigDecimal>>,
}

/// Picks, for each of the input slots, one of the values the spread offers
/// for that index at random; slots whose index the spread does not offer
/// stay empty.
pub fn pick_explicit_inputs(indicator_id: i32, spread: &InputSpread) -> (r: ExplicitInputs)
    requires
        forall|k: i16| 0 <= k < EXPLICIT_INPUTS && #[trigger] spread.map().dom().contains(k) ==> spread.map()[k].len() > 0,
    ensures
        r.indicator_id == indicator_id,
        r.inputs@.len() == EXPLICIT_INPUTS,
        forall|k: int| 0 <= k < EXPLICIT_INPUTS ==> (#[trigger] r.inputs@[k] is None <==> !spread.map().dom().contains(k as i16)),
        forall|k: int| 0 <= k < EXPLICIT_INPUTS && r.inputs@[k] is Some ==> spread.map()[k as i16].contains(#[trigger] r.inputs@[k].unwrap()),
{
    let mut inputs: Vec<Option<BigDecimal>> = Vec::new();
    let mut k: usize = 0;
    while k < EXPLICIT_INPUTS
        invariant
            k <= EXPLICIT_INPUTS,
            forall|k: i16| 0 <= k < EXPLICIT_INPUTS && #[trigger] spread.map().dom().contains(k) ==> spread.map()[k].len() > 0,
            inputs@.len() == k,
            forall|j: int| 0 <= j < k ==> (#[trigger] inputs@[j] is None <==> !spread.map().dom().contains(j as i16)),
            forall|j: int| 0 <= j < k && inputs@[j] is Some ==> spread.map()[j as i16].contains(#[trigger] inputs@[j].unwrap()),
        decreases EXPLICIT_INPUTS - k,
    {
        let index = k as i16;
        match spread.values(index) {
            Some(vals) => {
                let chosen = choose_from(vals);
                let x = copy_decimal(chosen.unwrap());
                inputs.push(Some(x));
            },
            None => {
                inputs.push(None);
            },
        }
        k += 1;
    }
    ExplicitInputs { indicator_id, inputs }
}

/// A row of the `result_sets` table: the run result `result_id` was
/// obtained with the explicit inputs `inputs_id`.
#[derive(Debug, PartialEq, Eq, Structural, Clone, Copy)]
pub struct ResultSet {
    pub result_id: i64,
    pub inputs_id: i64,
}

/// The links of one run result to each of the explicit input rows it was
/// obtained with, in the order of the rows.
pub fn result_sets_for(result_id: i64, inputs_ids: &Vec<i64>) -> (sets: Vec<ResultSet>)
    ensures
        sets@.len() == inputs_ids@.len(),
        forall|i: int| 0 <= i < sets@.len() ==> #[trigger] sets@[i] == (ResultSet {
            result_id: result_id,
            inputs_id: inputs_ids@[i],
        }),
{
    let mut sets: Vec<ResultSet> = Vec::new();
    let mut i: usize = 0;
    while i < inputs_ids.len()
        invariant
            i <= inputs_ids@.len(),
            sets@.len() == i,
            forall|j: int| 0 <= j < i ==> #[trigger] sets@[j] == (ResultSet { result_id: result_id, inputs_id: inputs_ids@[j] }),
        decreases inputs_ids.len() - i,
    {
        sets.push(ResultSet { result_id, inputs_id: inputs_ids[i] });
        i += 1;
    }
    sets
}

} // verus!
