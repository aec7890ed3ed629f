//! The indicator as the rest of the program knows it, independent of how it
//! is stored.
use vstd::prelude::*;

use bigdecimal::BigDecimal;

verus! {

/// An indicator with its name, its shift and its inputs.
///
/// Each input is a list of one value (a fixed input), three values (a range:
/// start, stop and step) or four values (a fixed input followed by a range).
#[derive(Debug)]
pub struct Indicator {
    pub name: String,
    pub shift: u8,
    pub inputs: Vec<Vec<BigDecimal>>,
}

/// The values of every input of an indicator, as sequences.
pub open spec fn inputs_view(inputs: Seq<Vec<BigDecimal>>) -> Seq<Seq<BigDecimal>> {
    inputs.map_values(|v: Vec<BigDecimal>| v@)
}

/// An input is one value, a range of three values, or a value and a range.
pub open spec fn valid_input(v: Seq<BigDecimal>) -> bool {
    v.len() == 1 || v.len() == 3 || v.len() == 4
}

/// Every input of the sequence is valid.
pub open spec fn valid_inputs(inputs: Seq<Seq<BigDecimal>>) -> bool {
    forall|i: int| 0 <= i < inputs.len() ==> #[trigger] valid_input(inputs[i])
}

impl Indicator {
    /// The indicator's inputs, as a sequence of sequences.
    pub open spec fn inputs_seq(&self) -> Seq<Seq<BigDecimal>> {
        inputs_view(self.inputs@)
    }
}

/// The indicators of one set, one slot for each function an indicator can
/// have in it. An empty set has every slot empty.
#[derive(Debug)]
pub struct IndicatorSet {
    pub confirm: Option<Indicator>,
    pub confirm2: Option<Indicator>,
    pub confirm3: Option<Indicator>,
    pub baseline: Option<Indicator>,
    pub volume: Option<Indicator>,
    pub cont: Option<Indicator>,
    pub exit: Option<Indicator>,
}

impl IndicatorSet {
    /// A set with every slot empty.
    pub fn empty() -> (s: IndicatorSet)
        ensures
            s.confirm is None,
            s.confirm2 is None,
            s.confirm3 is None,
            s.baseline is None,
            s.volume is None,
            s.cont is None,
            s.exit is None,
    {
        IndicatorSet {
            confirm: None,
            confirm2: None,
            confirm3: None,
            baseline: None,
            volume: None,
            cont: None,
            exit: None,
        }
    }
}

impl Default for IndicatorSet {
    fn default() -> (s: IndicatorSet)
        ensures
            s.confirm is None,
            s.confirm2 is None,
            s.confirm3 is None,
            s.baseline is None,
            s.volume is None,
            s.cont is None,
            s.exit is None,
    {
        IndicatorSet::empty()
    }
}

} // verus!
