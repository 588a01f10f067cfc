//! Laws of the heap and of comment composition, stated over the model.
use crate::story_builder::{
    candidate_count, consume, eligible, grows, has_candidate, refreshed, ActionModel,
    EffectModel, Pool,
};
use vstd::prelude::*;

verus! {

/// Consuming a fragment keeps every fragment and every consumed flag.
pub proof fn lemma_consume_grows(pool: Pool, i: int)
    requires
        0 <= i < pool.len(),
    ensures
        grows(pool, consume(pool, i)),
{
}

/// A fragment handed out by one selection is never handed out again by a
/// later selection on the same heap, whatever selections and renders came in
/// between (as long as the heap was not reset).
pub proof fn lemma_selected_at_most_once(
    h0: Pool,
    e0: EffectModel,
    i: int,
    h1: Pool,
    e1: EffectModel,
    j: int,
)
    requires
        eligible(h0, i, e0),
        grows(consume(h0, i), h1),
        eligible(h1, j, e1),
    ensures
        j != i,
{
}

/// Along a chain of heaps where each step selects an eligible fragment and
/// then only consumes more (further selections or renders), a fragment
/// selected at one step stays consumed at every later heap.
pub proof fn lemma_selected_stays_consumed(
    pools: Seq<Pool>,
    picks: Seq<int>,
    effects: Seq<EffectModel>,
    a: int,
    b: int,
)
    requires
        pools.len() == picks.len() + 1,
        effects.len() == picks.len(),
        forall|k: int|
            0 <= k < picks.len() ==> eligible(#[trigger] pools[k], picks[k], effects[k]) && grows(
                consume(pools[k], picks[k]),
                pools[k + 1],
            ),
        0 <= a < b < pools.len(),
    ensures
        pools[b].len() == pools[a].len(),
        pools[b][picks[a]].0,
    decreases b - a,
{
    assert(eligible(pools[a], picks[a], effects[a]));
    assert(eligible(pools[b - 1], picks[b - 1], effects[b - 1]));
    let c = consume(pools[b - 1], picks[b - 1]);
    if a < b - 1 {
        lemma_selected_stays_consumed(pools, picks, effects, a, b - 1);
    }
    assert(c[picks[a]].0);
    assert(pools[b][picks[a]].0);
}

/// In any sequence of selections on one heap without a reset, with any
/// selections or renders in between, no fragment is selected twice.
pub proof fn lemma_selections_distinct(pools: Seq<Pool>, picks: Seq<int>, effects: Seq<EffectModel>)
    requires
        pools.len() == picks.len() + 1,
        effects.len() == picks.len(),
        forall|k: int|
            0 <= k < picks.len() ==> eligible(#[trigger] pools[k], picks[k], effects[k]) && grows(
                consume(pools[k], picks[k]),
                pools[k + 1],
            ),
    ensures
        forall|a: int, b: int| 0 <= a < b < picks.len() ==> picks[a] != picks[b],
{
    assert forall|a: int, b: int| 0 <= a < b < picks.len() implies picks[a] != picks[b] by {
        lemma_selected_stays_consumed(pools, picks, effects, a, b);
        assert(eligible(pools[b], picks[b], effects[b]));
    }
}

/// When every fragment that ends in `e` is consumed, nothing can be chosen
/// for `e`.
pub proof fn lemma_exhausted_has_no_candidate(pool: Pool, e: EffectModel)
    requires
        forall|i: int| 0 <= i < pool.len() && (#[trigger] pool[i]).1.end_effect == e ==> pool[i].0,
    ensures
        !has_candidate(pool, e),
{
}

/// After a reset, a heap that only went through selections and renders since
/// it was built is back to its state at construction, so every effect has as
/// many candidates as it had then.
pub proof fn lemma_reset_restores_pool(built: Pool, now: Pool, e: EffectModel)
    requires
        forall|i: int| 0 <= i < built.len() ==> !(#[trigger] built[i]).0,
        grows(built, now),
    ensures
        refreshed(now) == built,
        candidate_count(refreshed(now), e) == candidate_count(built, e),
{
    assert(refreshed(now) =~= built);
}

/// Appending two comments in turn gives the original text followed by each
/// comment after a single space, in order; the action's kind and payload stay.
pub proof fn lemma_comments_accumulate(d: ActionModel, c0: Seq<char>, c1: Seq<char>)
    ensures
        d.with_comment(c0).with_comment(c1) == d.with_text(
            d.text() + seq![' '] + c0 + seq![' '] + c1,
        ),
{
    assert(d.text() + seq![' '] + c0 + seq![' '] + c1 =~= (d.text() + seq![' '] + c0) + seq![' ']
        + c1);
}

} // verus!
