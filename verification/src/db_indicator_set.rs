//! Indicator sets: which indicator fills which function of a set.
use vstd::prelude::*;

use vstd::std_specs::convert::FromSpecImpl;

use crate::db_indicator::DbIndiFunc;
use crate::params::{Indicator, IndicatorSet};

verus! {

/// The function an indicator fills in an indicator set.
#[derive(Debug, PartialEq, Eq, Structural, Hash, Copy, Clone)]
pub enum IndiFunc {
    Confirm,
    Confirm2,
    Confirm3,
    Baseline,
    Volume,
    Continue,
    Exit,
}

/// The stored function of an indicator that fills function `f` in a set.
pub open spec fn db_func_of(f: IndiFunc) -> DbIndiFunc {
    match f {
        IndiFunc::Confirm => DbIndiFunc::Confirm,
        IndiFunc::Confirm2 => DbIndiFunc::Confirm2,
        IndiFunc::Confirm3 => DbIndiFunc::Confirm3,
        IndiFunc::Baseline => DbIndiFunc::Baseline,
        IndiFunc::Volume => DbIndiFunc::Volume,
        IndiFunc::Continue => DbIndiFunc::Continue,
        IndiFunc::Exit => DbIndiFunc::Exit,
    }
}

/// The set function that a stored function `f` fills.
pub open spec fn set_func_of(f: DbIndiFunc) -> IndiFunc {
    match f {
        DbIndiFunc::Confirm => IndiFunc::Confirm,
        DbIndiFunc::Confirm2 => IndiFunc::Confirm2,
        DbIndiFunc::Confirm3 => IndiFunc::Confirm3,
        DbIndiFunc::Baseline => IndiFunc::Baseline,
        DbIndiFunc::Volume => IndiFunc::Volume,
        DbIndiFunc::Continue => IndiFunc::Continue,
        DbIndiFunc::Exit => IndiFunc::Exit,
    }
}

impl From<IndiFunc> for DbIndiFunc {
    fn from(f: IndiFunc) -> (r: DbIndiFunc)
        ensures
            f == IndiFunc::Confirm ==> r == DbIndiFunc::Confirm,
            f == IndiFunc::Confirm2 ==> r == DbIndiFunc::Confirm2,
            f == IndiFunc::Confirm3 ==> r == DbIndiFunc::Confirm3,
            f == IndiFunc::Baseline ==> r == DbIndiFunc::Baseline,
            f == IndiFunc::Volume ==> r == DbIndiFunc::Volume,
            f == IndiFunc::Continue ==> r == DbIndiFunc::Continue,
            f == IndiFunc::Exit ==> r == DbIndiFunc::Exit,
    {
        match f {
            IndiFunc::Confirm => DbIndiFunc::Confirm,
            IndiFunc::Confirm2 => DbIndiFunc::Confirm2,
            IndiFunc::Confirm3 => DbIndiFunc::Confirm3,
            IndiFunc::Baseline => DbIndiFunc::Baseline,
            IndiFunc::Volume => DbIndiFunc::Volume,
            IndiFunc::Continue => DbIndiFunc::Continue,
            IndiFunc::Exit => DbIndiFunc::Exit,
        }
    }
}

impl FromSpecImpl<IndiFunc> for DbIndiFunc {
    open spec fn obeys_from_spec() -> bool {
        true
    }

    open spec fn from_spec(f: IndiFunc) -> DbIndiFunc {
        db_func_of(f)
    }
}

impl From<DbIndiFunc> for IndiFunc {
    fn from(f: DbIndiFunc) -> (r: IndiFunc)
        ensures
            f == DbIndiFunc::Confirm ==> r == IndiFunc::Confirm,
            f == DbIndiFunc::Confirm2 ==> r == IndiFunc::Confirm2,
            f == DbIndiFunc::Confirm3 ==> r == IndiFunc::Confirm3,
            f == DbIndiFunc::Baseline ==> r == IndiFunc::Baseline,
            f == DbIndiFunc::Volume ==> r == IndiFunc::Volume,
            f == DbIndiFunc::Continue ==> r == IndiFunc::Continue,
            f == DbIndiFunc::Exit ==> r == IndiFunc::Exit,
    {
        match f {
            DbIndiFunc::Confirm => IndiFunc::Confirm,
            DbIndiFunc::Confirm2 => IndiFunc::Confirm2,
            DbIndiFunc::Confirm3 => IndiFunc::Confirm3,
            DbIndiFunc::Baseline => IndiFunc::Baseline,
            DbIndiFunc::Volume => IndiFunc::Volume,
            DbIndiFunc::Continue => IndiFunc::Continue,
            DbIndiFunc::Exit => IndiFunc::Exit,
        }
    }
}

impl FromSpecImpl<DbIndiFunc> for IndiFunc {
    open spec fn obeys_from_spec() -> bool {
        true
    }

    open spec fn from_spec(f: DbIndiFunc) -> IndiFunc {
        set_func_of(f)
    }
}

/// A function keeps its variant when converted between its set form and its
/// stored form, in both directions: a set's confirmation slot is filled from
/// indicators stored as confirmation indicators, and so on for each function.
pub proof fn lemma_func_conversion_keeps_variant()
    ensures
        db_func_of(IndiFunc::Confirm) == DbIndiFunc::Confirm,
        db_func_of(IndiFunc::Confirm2) == DbIndiFunc::Confirm2,
        db_func_of(IndiFunc::Confirm3) == DbIndiFunc::Confirm3,
        db_func_of(IndiFunc::Baseline) == DbIndiFunc::Baseline,
        db_func_of(IndiFunc::Volume) == DbIndiFunc::Volume,
        db_func_of(IndiFunc::Continue) == DbIndiFunc::Continue,
        db_func_of(IndiFunc::Exit) == DbIndiFunc::Exit,
        set_func_of(DbIndiFunc::Confirm) == IndiFunc::Confirm,
        set_func_of(DbIndiFunc::Confirm2) == IndiFunc::Confirm2,
        set_func_of(DbIndiFunc::Confirm3) == IndiFunc::Confirm3,
        set_func_of(DbIndiFunc::Baseline) == IndiFunc::Baseline,
        set_func_of(DbIndiFunc::Volume) == IndiFunc::Volume,
        set_func_of(DbIndiFunc::Continue) == IndiFunc::Continue,
        set_func_of(DbIndiFunc::Exit) == IndiFunc::Exit,
{
}

/// Converting a function between its set form and its stored form and back
/// gives it back, both ways.
pub proof fn lemma_func_round_trip(f: IndiFunc, g: DbIndiFunc)
    ensures
        set_func_of(db_func_of(f)) == f,
        db_func_of(set_func_of(g)) == g,
{
}

/// A row of the `indicator_sets` table: indicator `indicator_id` fills
/// function `func` in set `set_id`.
#[derive(Debug, PartialEq, Eq, Structural, Clone, Copy)]
pub struct DbIndicatorSet {
    pub set_id: i64,
    pub indicator_id: i32,
    pub func: IndiFunc,
}

impl IndicatorSet {
    /// The slot of the set that holds the indicator with function `f`.
    pub open spec fn slot(&self, f: IndiFunc) -> Option<Indicator> {
        match f {
            IndiFunc::Confirm => self.confirm,
            IndiFunc::Confirm2 => self.confirm2,
            IndiFunc::Confirm3 => self.confirm3,
            IndiFunc::Baseline => self.baseline,
            IndiFunc::Volume => self.volume,
            IndiFunc::Continue => self.cont,
            IndiFunc::Exit => self.exit,
        }
    }

    /// Puts `indi` into the slot of function `f`, replacing what was there;
    /// the other slots stay as they were.
    pub fn assign(&mut self, f: IndiFunc, indi: Indicator)
        ensures
            final(self).slot(f) == Some(indi),
            forall|g: IndiFunc| g != f ==> final(self).slot(g) == old(self).slot(g),
    {
        match f {
            IndiFunc::Confirm => self.confirm = Some(indi),
            IndiFunc::Confirm2 => self.confirm2 = Some(indi),
            IndiFunc::Confirm3 => self.confirm3 = Some(indi),
            IndiFunc::Baseline => self.baseline = Some(indi),
            IndiFunc::Volume => self.volume = Some(indi),
            IndiFunc::Continue => self.cont = Some(indi),
            IndiFunc::Exit => self.exit = Some(indi),
        }
    }
}

/// The indicator that the last entry with function `f` names, if any.
pub open spec fn last_with_func(entries: Seq<(Indicator, IndiFunc)>, f: IndiFunc) -> Option<Indicator>
    decreases entries.len(),
{
    if entries.len() == 0 {
        None
    } else if entries.last().1 == f {
        Some(entries.last().0)
    } else {
        last_with_func(entries.drop_last(), f)
    }
}

/// The indicator set that the rows of a set describe, each row loaded as its
/// indicator and its function: each function's slot holds the indicator of
/// the last entry with that function, and is empty where no entry has it.
pub fn indicator_set_from_entries(entries: Vec<(Indicator, IndiFunc)>) -> (set: IndicatorSet)
    ensures
        forall|f: IndiFunc| #[trigger] set.slot(f) == last_with_func(entries@, f),
{
    let ghost s = entries@;
    let n = entries.len();
    let mut rest = entries;
    let mut indi_set = IndicatorSet::empty();
    let mut i: usize = 0;
    while rest.len() > 0
        invariant
            i + rest@.len() == s.len(),
            s.len() == n,
            rest@ == s.subrange(i as int, s.len() as int),
            forall|f: IndiFunc| #[trigger] indi_set.slot(f) == last_with_func(s.take(i as int), f),
        decreases rest.len(),
    {
        let entry = rest.remove(0);
        let (indi, f) = entry;
        indi_set.assign(f, indi);
        proof {
            assert(s.take(i + 1).drop_last() =~= s.take(i as int));
            assert(s.take(i + 1).last() == entry);
        }
        i += 1;
    }
    assert(s.take(n as int) =~= s);
    indi_set
}

} // verus!
