//! Which functions an indicator read from a configuration file is stored
//! with.
//!
//! Configuration files lie in one directory per function (`confirm`,
//! `baseline`, `exit`, `volume`, `continue`). A confirmation indicator can
//! also serve as second and third confirmation, exit and continuation
//! indicator, and a baseline indicator as any of these and as confirmation
//! indicator; it is stored once for each function it can fill.
use vstd::prelude::*;

use crate::db_indicator::DbIndiFunc;

verus! {

/// The function of the indicators in the directory named `name`, if the name
/// is one of the known ones.
pub open spec fn dir_func(name: Seq<char>) -> Option<DbIndiFunc> {
    if name == "confirm"@ {
        Some(DbIndiFunc::Confirm)
    } else if name == "baseline"@ {
        Some(DbIndiFunc::Baseline)
    } else if name == "exit"@ {
        Some(DbIndiFunc::Exit)
    } else if name == "volume"@ {
        Some(DbIndiFunc::Volume)
    } else if name == "continue"@ {
        Some(DbIndiFunc::Continue)
    } else {
        None
    }
}

/// The functions an indicator found with function `f` is stored with, in the
/// order it is stored: first `f` itself, then the functions it can also fill.
pub open spec fn stored_funcs(f: DbIndiFunc) -> Seq<DbIndiFunc> {
    match f {
        DbIndiFunc::Confirm => seq![
            DbIndiFunc::Confirm,
            DbIndiFunc::Confirm2,
            DbIndiFunc::Confirm3,
            DbIndiFunc::Exit,
            DbIndiFunc::Continue,
        ],
        DbIndiFunc::Baseline => seq![
            DbIndiFunc::Baseline,
            DbIndiFunc::Confirm,
            DbIndiFunc::Confirm2,
            DbIndiFunc::Confirm3,
            DbIndiFunc::Exit,
            DbIndiFunc::Continue,
        ],
        _ => seq![f],
    }
}

/// The function of the indicators in the directory named `name`; `None` for
/// a directory of no known function.
pub fn func_for_dir(name: &str) -> (f: Option<DbIndiFunc>)
    ensures
        f == dir_func(name@),
{
    let s = name.to_owned();
    if s == "confirm".to_owned() {
        Some(DbIndiFunc::Confirm)
    } else if s == "baseline".to_owned() {
        Some(DbIndiFunc::Baseline)
    } else if s == "exit".to_owned() {
        Some(DbIndiFunc::Exit)
    } else if s == "volume".to_owned() {
        Some(DbIndiFunc::Volume)
    } else if s == "continue".to_owned() {
        Some(DbIndiFunc::Continue)
    } else {
        None
    }
}

/// The functions an indicator found with function `f` is stored with, in
/// the order it is stored.
pub fn funcs_to_store(f: DbIndiFunc) -> (v: Vec<DbIndiFunc>)
    ensures
        v@ == stored_funcs(f),
{
    let mut v: Vec<DbIndiFunc> = Vec::new();
    v.push(f);
    match f {
        DbIndiFunc::Confirm => {
            v.push(DbIndiFunc::Confirm2);
            v.push(DbIndiFunc::Confirm3);
            v.push(DbIndiFunc::Exit);
            v.push(DbIndiFunc::Continue);
        },
        DbIndiFunc::Baseline => {
            v.push(DbIndiFunc::Confirm);
            v.push(DbIndiFunc::Confirm2);
            v.push(DbIndiFunc::Confirm3);
            v.push(DbIndiFunc::Exit);
            v.push(DbIndiFunc::Continue);
        },
        _ => {},
    }
    assert(v@ =~= stored_funcs(f));
    v
}

} // verus!
