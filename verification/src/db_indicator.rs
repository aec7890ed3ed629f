//! Indicators and their inputs as rows of the `indicators` and
//! `indicator_inputs` tables, and the conversions between rows and
//! [`Indicator`] values.
use vstd::prelude::*;

use bigdecimal::BigDecimal;
use vstd::std_specs::convert::FromSpecImpl;

use crate::input_order::{
    lemma_sort_by_index, lemma_sorted_same_rows_equal, sort_by_index, sort_inputs_by_index,
    strictly_sorted_by_index,
};
use crate::params::{Indicator, inputs_view, valid_input, valid_inputs};

verus! {

/// The function an indicator has in a trading system.
#[derive(Debug, PartialEq, Eq, Structural, Hash, Copy, Clone)]
pub enum DbIndiFunc {
    Confirm,
    Confirm2,
    Confirm3,
    Baseline,
    Volume,
    Continue,
    Exit,
}

/// A row of the `indicators` table.
#[derive(Debug)]
pub struct DbIndicator {
    pub indicator_id: i32,
    pub parent_id: Option<i32>,
    pub child_id: Option<i32>,
    pub name: String,
    pub shift: i16,
    pub func: DbIndiFunc,
}

/// A row to insert into the `indicators` table; the database assigns its id.
#[derive(Debug)]
pub struct NewDbIndicator {
    pub parent_id: Option<i32>,
    pub child_id: Option<i32>,
    pub indicator_name: String,
    pub shift: i16,
    pub func: DbIndiFunc,
}

/// A row of the `indicator_inputs` table: the input at `index` of an
/// indicator, a fixed value, a range, or both.
#[derive(Debug)]
pub struct DbIndicatorInput {
    pub indicator_id: i32,
    pub index: i16,
    pub input: Option<BigDecimal>,
    pub start: Option<BigDecimal>,
    pub stop: Option<BigDecimal>,
    pub step: Option<BigDecimal>,
}

/// The input row that stores the input `v` at position `i` of indicator `id`.
pub open spec fn input_row(id: i32, i: int, v: Seq<BigDecimal>) -> DbIndicatorInput {
    if v.len() == 1 {
        DbIndicatorInput {
            indicator_id: id,
            index: i as i16,
            input: Some(v[0]),
            start: None,
            stop: None,
            step: None,
        }
    } else if v.len() == 3 {
        DbIndicatorInput {
            indicator_id: id,
            index: i as i16,
            input: None,
            start: Some(v[0]),
            stop: Some(v[1]),
            step: Some(v[2]),
        }
    } else {
        DbIndicatorInput {
            indicator_id: id,
            index: i as i16,
            input: Some(v[0]),
            start: Some(v[1]),
            stop: Some(v[2]),
            step: Some(v[3]),
        }
    }
}

/// The input rows that store the inputs of indicator `id`, in input order.
pub open spec fn input_rows(id: i32, inputs: Seq<Seq<BigDecimal>>) -> Seq<DbIndicatorInput> {
    Seq::new(inputs.len(), |i: int| input_row(id, i, inputs[i]))
}

/// The input row that stores the input `v` at position `i` of indicator `id`.
fn input_row_of(id: i32, i: usize, v: Vec<BigDecimal>) -> (r: DbIndicatorInput)
    requires
        valid_input(v@),
    ensures
        r == input_row(id, i as int, v@),
{
    let ghost vs = v@;
    let index = i as i16;
    let mut v = v;
    if v.len() == 1 {
        let input = v.pop().unwrap();
        DbIndicatorInput { indicator_id: id, index, input: Some(input), start: None, stop: None, step: None }
    } else if v.len() == 3 {
        let step = v.pop().unwrap();
        let stop = v.pop().unwrap();
        let start = v.pop().unwrap();
        DbIndicatorInput { indicator_id: id, index, input: None, start: Some(start), stop: Some(stop), step: Some(step) }
    } else {
        let step = v.pop().unwrap();
        let stop = v.pop().unwrap();
        let start = v.pop().unwrap();
        let input = v.pop().unwrap();
        DbIndicatorInput {
            indicator_id: id,
            index,
            input: Some(input),
            start: Some(start),
            stop: Some(stop),
            step: Some(step),
        }
    }
}

/// The rows of the `indicator_inputs` table that store `inputs` for the
/// indicator with id `indicator_id`: one row for each input, in input order,
/// with the input's position as its index.
pub fn indicator_input_rows(indicator_id: i32, inputs: Vec<Vec<BigDecimal>>) -> (rows: Vec<DbIndicatorInput>)
    requires
        valid_inputs(inputs_view(inputs@)),
    ensures
        rows@ == input_rows(indicator_id, inputs_view(inputs@)),
        rows@.len() == inputs@.len(),
            forall|i: int| 0 <= i < rows@.len() ==> (#[trigger] rows@[i]).indicator_id == indicator_id,
            forall|i: int| 0 <= i < rows@.len() ==> (#[trigger] rows@[i]).index == i as i16,
            forall|i: int| 0 <= i < rows@.len() && inputs@[i]@.len() == 1 ==> {
                let r = #[trigger] rows@[i];
                &&& r.input == Some(inputs@[i]@[0])
                &&& r.start is None && r.stop is None && r.step is None
            },
            forall|i: int| 0 <= i < rows@.len() && inputs@[i]@.len() == 3 ==> {
                let r = #[trigger] rows@[i];
                &&& r.input is None
                &&& r.start == Some(inputs@[i]@[0]) && r.stop == Some(inputs@[i]@[1]) && r.step == Some(inputs@[i]@[2])
            },
            forall|i: int| 0 <= i < rows@.len() && inputs@[i]@.len() == 4 ==> {
                let r = #[trigger] rows@[i];
                &&& r.input == Some(inputs@[i]@[0])
                &&& r.start == Some(inputs@[i]@[1]) && r.stop == Some(inputs@[i]@[2]) && r.step == Some(inputs@[i]@[3])
            },
{
    let ghost all = inputs_view(inputs@);
    let n = inputs.len();
    assert(all.len() == n);
    let mut rest = inputs;
    let mut rows: Vec<DbIndicatorInput> = Vec::new();
    let mut i: usize = 0;
    while rest.len() > 0
        invariant
            i + rest@.len() == all.len(),
            all.len() <= usize::MAX,
            inputs_view(rest@) == all.subrange(i as int, all.len() as int),
            valid_inputs(all),
            rows@.len() == i,
            forall|j: int| 0 <= j < i ==> #[trigger] rows@[j] == input_row(indicator_id, j, all[j]),
        decreases rest.len(),
    {
        let ghost before = rest@;
        let v = rest.remove(0);
        proof {
            assert(inputs_view(before)[0] == v@);
            assert(inputs_view(rest@) =~= inputs_view(before).subrange(1, before.len() as int));
            assert(valid_input(all[i as int]));
        }
        let row = input_row_of(indicator_id, i, v);
        rows.push(row);
        i += 1;
    }
    assert(rows@ =~= input_rows(indicator_id, all));
    proof {
        lemma_input_rows_fields(indicator_id, all);
        assert forall|i: int| 0 <= i < all.len() implies all[i] == #[trigger] inputs@[i]@ by {}
    }
    rows
}

/// Each row stored for the inputs of indicator `id` belongs to `id`, has its
/// input's position (as an `i16`) as index, and holds that input: a single
/// value as the fixed input with no range, three values as start, stop and
/// step with no fixed input, four values as the fixed input followed by
/// start, stop and step.
pub proof fn lemma_input_rows_fields(id: i32, inputs: Seq<Seq<BigDecimal>>)
    requires
        valid_inputs(inputs),
    ensures
        input_rows(id, inputs).len() == inputs.len(),
        forall|i: int| 0 <= i < inputs.len() ==> (#[trigger] input_rows(id, inputs)[i]).indicator_id == id,
        forall|i: int| 0 <= i < inputs.len() ==> (#[trigger] input_rows(id, inputs)[i]).index == i as i16,
        forall|i: int| 0 <= i < inputs.len() && inputs[i].len() == 1 ==> {
            let r = #[trigger] input_rows(id, inputs)[i];
            &&& r.input == Some(inputs[i][0])
            &&& r.start is None && r.stop is None && r.step is None
        },
        forall|i: int| 0 <= i < inputs.len() && inputs[i].len() == 3 ==> {
            let r = #[trigger] input_rows(id, inputs)[i];
            &&& r.input is None
            &&& r.start == Some(inputs[i][0]) && r.stop == Some(inputs[i][1]) && r.step == Some(inputs[i][2])
        },
        forall|i: int| 0 <= i < inputs.len() && inputs[i].len() == 4 ==> {
            let r = #[trigger] input_rows(id, inputs)[i];
            &&& r.input == Some(inputs[i][0])
            &&& r.start == Some(inputs[i][1]) && r.stop == Some(inputs[i][2]) && r.step == Some(inputs[i][3])
        },
{
    assert forall|i: int| 0 <= i < inputs.len() implies (#[trigger] input_rows(id, inputs)[i]).indicator_id == id by {
        assert(valid_input(inputs[i]));
    }
}

/// The values an input row holds: its fixed value, if any, followed by its
/// range (start, stop, step) if all three are there.
pub open spec fn row_values(r: DbIndicatorInput) -> Seq<BigDecimal> {
    (match r.input {
        Some(x) => seq![x],
        None => Seq::empty(),
    }) + (match (r.start, r.stop, r.step) {
        (Some(a), Some(b), Some(c)) => seq![a, b, c],
        _ => Seq::empty(),
    })
}

/// The row holds a fixed value or a complete range.
pub open spec fn row_has_values(r: DbIndicatorInput) -> bool {
    row_values(r).len() > 0
}

/// The inputs of an indicator rebuilt from its input rows: the rows sorted
/// by index, each turned into its values.
pub open spec fn inputs_of_rows(rows: Seq<DbIndicatorInput>) -> Seq<Seq<BigDecimal>> {
    sort_by_index(rows).map_values(|r: DbIndicatorInput| row_values(r))
}

/// The values of one input row, in the order fixed value, start, stop, step.
fn values_of_row(row: DbIndicatorInput) -> (v: Vec<BigDecimal>)
    ensures
        v@ == row_values(row),
{
    let ghost r = row;
    let DbIndicatorInput { indicator_id: _, index: _, input, start, stop, step } = row;
    let mut vals: Vec<BigDecimal> = Vec::new();
    match input {
        Some(x) => vals.push(x),
        None => {},
    }
    match (start, stop, step) {
        (Some(a), Some(b), Some(c)) => {
            vals.push(a);
            vals.push(b);
            vals.push(c);
        },
        _ => {},
    }
    assert(vals@ =~= row_values(r));
    vals
}

/// Whether `v` has the length of an input: one value, a range of three, or
/// a value and a range.
pub fn is_valid_input(v: &Vec<BigDecimal>) -> (b: bool)
    ensures
        b == valid_input(v@),
{
    v.len() == 1 || v.len() == 3 || v.len() == 4
}

impl DbIndicatorInput {
    /// Whether the row holds a fixed value or a complete range.
    pub fn has_values(&self) -> (b: bool)
        ensures
            b == row_has_values(*self),
    {
        self.input.is_some() || (self.start.is_some() && self.stop.is_some() && self.step.is_some())
    }
}

impl Indicator {
    /// The indicator stored as the row `indi` of the `indicators` table with
    /// the input rows `rows`, read back in any order: the rows are sorted by
    /// index and each gives one input.
    pub fn from_db(indi: DbIndicator, rows: Vec<DbIndicatorInput>) -> (r: Indicator)
        requires
            forall|i: int| 0 <= i < rows@.len() ==> row_has_values(#[trigger] rows@[i]),
        ensures
            r.name == indi.name,
            r.shift == indi.shift as u8,
            r.inputs_seq() == inputs_of_rows(rows@),
    {
        let ghost s = rows@;
        let sorted = sort_inputs_by_index(rows);
        let ghost t = sorted@;
        proof {
            lemma_sort_by_index(s);
            assert forall|j: int| 0 <= j < t.len() implies row_has_values(#[trigger] t[j]) by {
                broadcast use vstd::seq_lib::group_to_multiset_ensures;
                assert(t.contains(t[j]));
                assert(t.to_multiset().count(t[j]) > 0);
                assert(s.contains(t[j]));
            }
        }
        let n = sorted.len();
        let mut rest = sorted;
        let mut inputs: Vec<Vec<BigDecimal>> = Vec::new();
        let mut i: usize = 0;
        while rest.len() > 0
            invariant
                i + rest@.len() == t.len(),
                t.len() == n,
                rest@ == t.subrange(i as int, t.len() as int),
                inputs@.len() == i,
                forall|j: int| 0 <= j < i ==> #[trigger] inputs@[j]@ == row_values(t[j]),
            decreases rest.len(),
        {
            let row = rest.remove(0);
            let vals = values_of_row(row);
            inputs.push(vals);
            i += 1;
        }
        let r = Indicator { name: indi.name, shift: indi.shift as u8, inputs };
        assert(r.inputs_seq() =~= inputs_of_rows(s));
        r
    }
}

/// Inputs written as rows read back as the same inputs: every row written for
/// valid inputs holds values, and the rows read back in any order (the same
/// rows as a multiset) give the inputs again. The index of a row is its
/// input's position as an `i16`, so this holds for at most 32768 inputs.
pub proof fn lemma_stored_inputs_read_back(id: i32, inputs: Seq<Seq<BigDecimal>>, read: Seq<DbIndicatorInput>)
    requires
        valid_inputs(inputs),
        inputs.len() <= 32768,
        read.to_multiset() == input_rows(id, inputs).to_multiset(),
    ensures
        forall|i: int| 0 <= i < inputs.len() ==> row_has_values(#[trigger] input_rows(id, inputs)[i]),
        inputs_of_rows(read) == inputs,
{
    let w = input_rows(id, inputs);
    assert forall|i: int| 0 <= i < inputs.len() implies row_values(#[trigger] w[i]) == inputs[i] by {
        let v = inputs[i];
        assert(valid_input(v));
        if v.len() == 1 {
            assert(row_values(w[i]) =~= v);
        } else if v.len() == 3 {
            assert(row_values(w[i]) =~= v);
        } else {
            assert(row_values(w[i]) =~= v);
        }
    }
    assert forall|i: int, j: int| 0 <= i < j < w.len() implies #[trigger] w[i].index < #[trigger] w[j].index by {
        assert(w[i].index == i as i16);
        assert(w[j].index == j as i16);
    }
    assert(strictly_sorted_by_index(w));
    lemma_sort_by_index(read);
    lemma_sorted_same_rows_equal(sort_by_index(read), w);
    assert(inputs_of_rows(read) =~= inputs);
}

/// An indicator stored and read back is the same indicator: if the row read
/// back has the name and shift of the row `NewDbIndicator::for_store` made
/// for `indi`, and the input rows read back are (in any order) the rows
/// `indicator_input_rows` made for its inputs, then `Indicator::from_db`
/// rebuilds `indi`'s name, shift and inputs. The index of an input row is
/// its position as an `i16`, so this holds for at most 32768 inputs.
pub proof fn lemma_indicator_read_back(indi: Indicator, db: DbIndicator, read: Seq<DbIndicatorInput>)
    requires
        valid_inputs(indi.inputs_seq()),
        indi.inputs_seq().len() <= 32768,
        db.name@ == indi.name@,
        db.shift == indi.shift as i16,
        read.to_multiset() == input_rows(db.indicator_id, indi.inputs_seq()).to_multiset(),
    ensures
        forall|i: int| 0 <= i < read.len() ==> row_has_values(#[trigger] read[i]),
        db.name@ == indi.name@,
        db.shift as u8 == indi.shift,
        inputs_of_rows(read) == indi.inputs_seq(),
{
    broadcast use vstd::seq_lib::group_to_multiset_ensures;
    let w = input_rows(db.indicator_id, indi.inputs_seq());
    lemma_stored_inputs_read_back(db.indicator_id, indi.inputs_seq(), read);
    lemma_stored_shift_read_back(indi.shift);
    assert forall|i: int| 0 <= i < read.len() implies row_has_values(#[trigger] read[i]) by {
        assert(read.contains(read[i]));
        assert(read.to_multiset().count(read[i]) > 0);
        assert(w.to_multiset().count(read[i]) > 0);
        assert(w.contains(read[i]));
    }
}

/// A shift stored as an `i16` reads back as the same `u8`.
pub proof fn lemma_stored_shift_read_back(shift: u8)
    ensures
        (shift as i16) as u8 == shift,
{
    assert((shift as i16) as u8 == shift) by (bit_vector);
}

impl NewDbIndicator {
    /// The row that stores `indi` with function `func` and parent `parent`.
    pub fn for_store(indi: &Indicator, parent: Option<i32>, func: DbIndiFunc) -> (r: NewDbIndicator)
        ensures
            r.parent_id == parent,
            r.child_id is None,
            r.indicator_name@ == indi.name@,
            r.shift == indi.shift as i16,
            r.func == func,
    {
        let mut new_db_indi = NewDbIndicator::from((func, indi));
        new_db_indi.parent_id = parent;
        new_db_indi
    }
}

impl<'a> From<(DbIndiFunc, &'a Indicator)> for NewDbIndicator {
    fn from(v: (DbIndiFunc, &'a Indicator)) -> (r: NewDbIndicator)
        ensures
            r.parent_id is None,
            r.child_id is None,
            r.indicator_name@ == v.1.name@,
            r.shift == v.1.shift as i16,
            r.func == v.0,
    {
        let (func, indi) = v;
        NewDbIndicator {
            parent_id: None,
            child_id: None,
            indicator_name: indi.name.clone(),
            shift: indi.shift as i16,
            func,
        }
    }
}

/// The name of the new row is a clone of the indicator's: equal in content,
/// which `from` states over the name's view, but not the same `String`
/// value, so this conversion does not claim to return `from_spec` exactly.
impl<'a> FromSpecImpl<(DbIndiFunc, &'a Indicator)> for NewDbIndicator {
    open spec fn obeys_from_spec() -> bool {
        false
    }

    open spec fn from_spec(v: (DbIndiFunc, &'a Indicator)) -> NewDbIndicator {
        NewDbIndicator {
            parent_id: None,
            child_id: None,
            indicator_name: v.1.name,
            shift: v.1.shift as i16,
            func: v.0,
        }
    }
}

impl From<(DbIndiFunc, Indicator)> for NewDbIndicator {
    fn from(v: (DbIndiFunc, Indicator)) -> (r: NewDbIndicator) {
        let (func, indi) = v;
        NewDbIndicator {
            parent_id: None,
            child_id: None,
            indicator_name: indi.name,
            shift: indi.shift as i16,
            func,
        }
    }
}

impl FromSpecImpl<(DbIndiFunc, Indicator)> for NewDbIndicator {
    open spec fn obeys_from_spec() -> bool {
        true
    }

    open spec fn from_spec(v: (DbIndiFunc, Indicator)) -> NewDbIndicator {
        NewDbIndicator {
            parent_id: None,
            child_id: None,
            indicator_name: v.1.name,
            shift: v.1.shift as i16,
            func: v.0,
        }
    }
}

impl DbIndicator {
    /// The row of a new child of this indicator: same name, shift and
    /// function, with this indicator as its parent.
    pub fn child_record(&self) -> (r: NewDbIndicator)
        ensures
            r.parent_id == Some(self.indicator_id),
            r.child_id is None,
            r.indicator_name@ == self.name@,
            r.shift == self.shift,
            r.func == self.func,
    {
        NewDbIndicator {
            parent_id: Some(self.indicator_id),
            child_id: None,
            indicator_name: self.name.clone(),
            shift: self.shift,
            func: self.func,
        }
    }
}

} // verus!
