//! Random populations of indicator sets: each new set gets, for each
//! function, an indicator picked at random among those with that function.
use vstd::prelude::*;

use crate::random::choose_from;

verus! {

/// A row of the `set_indicators` table: indicator `indicator_id` belongs to
/// set `indicator_set_id`.
#[derive(Debug, PartialEq, Eq, Structural, Clone, Copy)]
pub struct SetIndicator {
    pub indicator_set_id: i64,
    pub indicator_id: i32,
}

/// The links of one set to the indicators picked for it, in pick order.
pub open spec fn set_links(set_id: i64, picked: Seq<i32>) -> Seq<SetIndicator> {
    picked.map_values(|id: i32| SetIndicator { indicator_set_id: set_id, indicator_id: id })
}

/// The links of all sets, set after set, each with its picks in order.
pub open spec fn population_links(set_ids: Seq<i64>, picks: Seq<Seq<i32>>) -> Seq<SetIndicator>
    decreases set_ids.len(),
{
    if set_ids.len() == 0 || picks.len() == 0 {
        Seq::empty()
    } else {
        population_links(set_ids.drop_last(), picks.drop_last()) + set_links(set_ids.last(), picks.last())
    }
}

/// The picks for one set are one indicator for each function, among the
/// candidates of that function.
pub open spec fn valid_pick(pick: Seq<i32>, candidates: Seq<Seq<i32>>) -> bool {
    &&& pick.len() == candidates.len()
    &&& forall|j: int| 0 <= j < pick.len() ==> #[trigger] candidates[j].contains(pick[j])
}

/// The candidate lists as sequences.
pub open spec fn candidates_view(candidates: Seq<Vec<i32>>) -> Seq<Seq<i32>> {
    candidates.map_values(|c: Vec<i32>| c@)
}

/// A population built from valid picks has one link for each set and each
/// function; each link joins one of the sets to one of the candidates.
pub proof fn lemma_population_links(set_ids: Seq<i64>, picks: Seq<Seq<i32>>, candidates: Seq<Seq<i32>>)
    requires
        picks.len() == set_ids.len(),
        forall|k: int| 0 <= k < picks.len() ==> valid_pick(#[trigger] picks[k], candidates),
    ensures
        population_links(set_ids, picks).len() == set_ids.len() * candidates.len(),
        forall|i: int| 0 <= i < population_links(set_ids, picks).len() ==> {
            let l = #[trigger] population_links(set_ids, picks)[i];
            &&& set_ids.contains(l.indicator_set_id)
            &&& exists|j: int| 0 <= j < candidates.len() && candidates[j].contains(l.indicator_id)
        },
    decreases set_ids.len(),
{
    if set_ids.len() > 0 {
        let n = set_ids.len() as int;
        let m = candidates.len() as int;
        let ids = set_ids.drop_last();
        let ps = picks.drop_last();
        assert forall|k: int| 0 <= k < ps.len() implies valid_pick(#[trigger] ps[k], candidates) by {
            assert(ps[k] == picks[k]);
        }
        lemma_population_links(ids, ps, candidates);
        let front = population_links(ids, ps);
        let back = set_links(set_ids.last(), picks.last());
        assert(valid_pick(picks[n - 1], candidates));
        assert((n - 1) * m + m == n * m) by (nonlinear_arith);
        let all = population_links(set_ids, picks);
        assert(all == front + back);
        assert forall|i: int| 0 <= i < all.len() implies {
            let l = #[trigger] all[i];
            &&& set_ids.contains(l.indicator_set_id)
            &&& exists|j: int| 0 <= j < candidates.len() && candidates[j].contains(l.indicator_id)
        } by {
            if i < front.len() {
                assert(all[i] == front[i]);
                let l = front[i];
                let s = choose|s: int| 0 <= s < ids.len() && ids[s] == l.indicator_set_id;
                assert(set_ids[s] == ids[s]);
            } else {
                let j = i - front.len();
                assert(all[i] == back[j]);
                assert(back[j].indicator_id == picks[n - 1][j]);
                assert(candidates[j].contains(picks[n - 1][j]));
                assert(set_ids[n - 1] == set_ids.last());
            }
        }
    }
}

/// The links of the sets `set_ids` to the indicators picked for them:
/// `picks[k]` lists the indicators of set `set_ids[k]`.
pub fn links_from_picks(set_ids: &Vec<i64>, picks: &Vec<Vec<i32>>) -> (links: Vec<SetIndicator>)
    requires
        picks@.len() == set_ids@.len(),
    ensures
        links@ == population_links(set_ids@, candidates_view(picks@)),
{
    let ghost p = candidates_view(picks@);
    let mut links: Vec<SetIndicator> = Vec::new();
    let mut k: usize = 0;
    while k < set_ids.len()
        invariant
            k <= set_ids@.len(),
            picks@.len() == set_ids@.len(),
            p == candidates_view(picks@),
            links@ == population_links(set_ids@.take(k as int), p.take(k as int)),
        decreases set_ids.len() - k,
    {
        let set_id = set_ids[k];
        let row = &picks[k];
        let ghost before = links@;
        let mut j: usize = 0;
        while j < row.len()
            invariant
                j <= row@.len(),
                links@ == before + set_links(set_id, row@.take(j as int)),
            decreases row.len() - j,
        {
            links.push(SetIndicator { indicator_set_id: set_id, indicator_id: row[j] });
            proof {
                assert(set_links(set_id, row@.take(j + 1)) =~= set_links(set_id, row@.take(j as int)).push(
                    SetIndicator { indicator_set_id: set_id, indicator_id: row@[j as int] },
                ));
            }
            j += 1;
        }
        proof {
            assert(row@.take(row@.len() as int) =~= row@);
            assert(set_ids@.take(k + 1).drop_last() =~= set_ids@.take(k as int));
            assert(p.take(k + 1).drop_last() =~= p.take(k as int));
            assert(p[k as int] == row@);
        }
        k += 1;
    }
    proof {
        assert(set_ids@.take(set_ids@.len() as int) =~= set_ids@);
        assert(p.take(p.len() as int) =~= p);
    }
    links
}

/// For each of `n_sets` sets, one indicator picked at random for each
/// function among that function's candidates.
pub fn pick_indicators(n_sets: usize, candidates: &Vec<Vec<i32>>) -> (picks: Vec<Vec<i32>>)
    requires
        n_sets > 0 ==> forall|j: int| 0 <= j < candidates@.len() ==> #[trigger] candidates@[j]@.len() > 0,
    ensures
        picks@.len() == n_sets,
        forall|k: int| 0 <= k < n_sets ==> valid_pick(#[trigger] picks@[k]@, candidates_view(candidates@)),
{
    let ghost c = candidates_view(candidates@);
    let mut picks: Vec<Vec<i32>> = Vec::new();
    let mut k: usize = 0;
    while k < n_sets
        invariant
            k <= n_sets,
            c == candidates_view(candidates@),
            n_sets > 0 ==> forall|j: int| 0 <= j < candidates@.len() ==> #[trigger] candidates@[j]@.len() > 0,
            picks@.len() == k,
            forall|i: int| 0 <= i < k ==> valid_pick(#[trigger] picks@[i]@, c),
        decreases n_sets - k,
    {
        let mut pick: Vec<i32> = Vec::new();
        let mut j: usize = 0;
        while j < candidates.len()
            invariant
                j <= candidates@.len(),
                c == candidates_view(candidates@),
                forall|i: int| 0 <= i < candidates@.len() ==> #[trigger] candidates@[i]@.len() > 0,
                pick@.len() == j,
                forall|i: int| 0 <= i < j ==> #[trigger] c[i].contains(pick@[i]),
            decreases candidates.len() - j,
        {
            let chosen = choose_from(&candidates[j]);
            let id = *chosen.unwrap();
            pick.push(id);
            j += 1;
        }
        picks.push(pick);
        k += 1;
    }
    picks
}

/// The links of a new population: the sets `set_ids`, each given one
/// indicator at random for each function among that function's candidates.
pub fn random_population_links(set_ids: &Vec<i64>, candidates: &Vec<Vec<i32>>) -> (links: Vec<SetIndicator>)
    requires
        set_ids@.len() > 0 ==> forall|j: int| 0 <= j < candidates@.len() ==> #[trigger] candidates@[j]@.len() > 0,
    ensures
        exists|picks: Seq<Seq<i32>>|
            {
                &&& picks.len() == set_ids@.len()
                &&& forall|k: int| 0 <= k < picks.len() ==> valid_pick(#[trigger] picks[k], candidates_view(candidates@))
                &&& links@ == population_links(set_ids@, picks)
            },
{
    let picks = pick_indicators(set_ids.len(), candidates);
    let links = links_from_picks(set_ids, &picks);
    proof {
        let p = candidates_view(picks@);
        assert(forall|k: int| 0 <= k < p.len() ==> p[k] == #[trigger] picks@[k]@);
    }
    links
}

} // verus!
