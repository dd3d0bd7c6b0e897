//! Properties that relate several operations, proved over the models that
//! the operations' contracts use.

use crate::catalog::{asset_value_of, manifest_entries};
use crate::cooldown::{decide, last_draw, mark, COOLDOWN_MS};
use crate::draw::{accepted, draw_gain, ledger_after, outcome_of, DrawOutcome};
use crate::ledger::{balance_in, ids_increasing, records_map, BalanceRecord};
use vstd::prelude::*;

verus! {

/// The cooldown and ledger states after a user's draws at `times`, the k-th
/// of which would pick `indices[k]`.
pub open spec fn run_draws(
    guard: Map<i64, u64>,
    ledger: Map<i64, i64>,
    user_id: i64,
    times: Seq<u64>,
    indices: Seq<int>,
    catalog: Seq<Seq<char>>,
) -> (Map<i64, u64>, Map<i64, i64>)
    decreases times.len(),
{
    if times.len() == 0 || indices.len() == 0 {
        (guard, ledger)
    } else {
        let (g, l) = run_draws(
            guard,
            ledger,
            user_id,
            times.drop_last(),
            indices.drop_last(),
            catalog,
        );
        (
            mark(g, user_id, times.last()),
            ledger_after(g, l, user_id, times.last(), catalog, indices.last()),
        )
    }
}

/// The points that draws at `indices` gain from `catalog`.
pub open spec fn total_gain(catalog: Seq<Seq<char>>, indices: Seq<int>) -> int
    decreases indices.len(),
{
    if indices.len() == 0 {
        0
    } else {
        total_gain(catalog, indices.drop_last()) + draw_gain(catalog, indices.last())
    }
}

proof fn lemma_total_gain_nonnegative(catalog: Seq<Seq<char>>, indices: Seq<int>)
    ensures
        total_gain(catalog, indices) >= 0,
    decreases indices.len(),
{
    if indices.len() > 0 {
        lemma_total_gain_nonnegative(catalog, indices.drop_last());
        if catalog.len() > 0 {
            assert(asset_value_of(catalog[indices.last()]) >= 0);
        }
    }
}

/// Draws by one user, each at least the cooldown window after the one
/// before and the first one let through, leave the user's balance raised by
/// exactly the sum of the values of the assets drawn.
pub proof fn lemma_spaced_draws_sum(
    guard: Map<i64, u64>,
    ledger: Map<i64, i64>,
    user_id: i64,
    times: Seq<u64>,
    indices: Seq<int>,
    catalog: Seq<Seq<char>>,
)
    requires
        times.len() == indices.len(),
        forall|k: int| 0 <= k < indices.len() ==> catalog.len() == 0 || 0 <= #[trigger] indices[k] < catalog.len(),
        forall|k: int| 0 < k < times.len() ==> times[k - 1] + COOLDOWN_MS <= #[trigger] times[k],
        times.len() > 0 ==> accepted(guard, user_id, times[0]),
        i64::MIN <= balance_in(ledger, user_id),
        balance_in(ledger, user_id) + total_gain(catalog, indices) <= i64::MAX,
    ensures
        balance_in(run_draws(guard, ledger, user_id, times, indices, catalog).1, user_id)
            == balance_in(ledger, user_id) + total_gain(catalog, indices),
        times.len() > 0 ==> last_draw(run_draws(guard, ledger, user_id, times, indices, catalog).0, user_id)
            == Some(times.last()),
    decreases times.len(),
{
    if times.len() > 0 {
        let t = times.drop_last();
        let ix = indices.drop_last();
        let last_gain = draw_gain(catalog, indices.last());
        assert(last_gain >= 0) by {
            if catalog.len() > 0 {
                assert(asset_value_of(catalog[indices.last()]) >= 0);
            }
        }
        lemma_total_gain_nonnegative(catalog, ix);
        assert forall|k: int| 0 < k < t.len() implies t[k - 1] + COOLDOWN_MS <= #[trigger] t[k] by {
            assert(t[k] == times[k] && t[k - 1] == times[k - 1]);
        }
        assert forall|k: int| 0 <= k < ix.len() implies catalog.len() == 0 || 0 <= #[trigger] ix[k]
            < catalog.len() by {
            assert(ix[k] == indices[k]);
        }
        lemma_spaced_draws_sum(guard, ledger, user_id, t, ix, catalog);
        let (g, l) = run_draws(guard, ledger, user_id, t, ix, catalog);
        if t.len() > 0 {
            assert(times[t.len() - 1] + COOLDOWN_MS <= times[t.len() as int]);
        }
        assert(accepted(g, user_id, times.last()));
    }
}

/// A draw that follows a draw let through by the cooldown, by the same user
/// and less than the window later, is throttled and leaves the ledger as
/// the first draw left it.
pub proof fn lemma_close_draw_throttled(
    guard: Map<i64, u64>,
    ledger: Map<i64, i64>,
    user_id: i64,
    first: u64,
    second: u64,
    catalog: Seq<Seq<char>>,
    first_index: int,
    second_index: int,
)
    requires
        accepted(guard, user_id, first),
        first <= second < first + COOLDOWN_MS,
    ensures
        decide(last_draw(mark(guard, user_id, first), user_id), second) is Rejected,
        ({
            let g = mark(guard, user_id, first);
            let l = ledger_after(guard, ledger, user_id, first, catalog, first_index);
            &&& ledger_after(g, l, user_id, second, catalog, second_index) == l
            &&& mark(g, user_id, second) == g
            &&& forall|r: DrawOutcome| #[trigger]
                outcome_of(r, g, l, user_id, second, catalog, second_index) ==> r is Throttled
        }),
{
}

/// Reading a balance right after crediting `amount` gives the balance from
/// before plus `amount`.
pub proof fn lemma_credit_then_get(before: Map<i64, i64>, user_id: i64, amount: i64, credited: i64)
    requires
        credited == balance_in(before, user_id) + amount,
    ensures
        balance_in(before.insert(user_id, credited), user_id) == balance_in(before, user_id)
            + amount,
{
}

/// A saved snapshot describes the ledger it was taken from, and reading its
/// records back in any order describes the same ledger.
pub proof fn lemma_snapshot_reload(
    ledger: Map<i64, i64>,
    snapshot: Seq<BalanceRecord>,
    reloaded: Seq<BalanceRecord>,
)
    requires
        ids_increasing(snapshot),
        records_map(snapshot) == ledger,
        forall|i: int, j: int|
            0 <= i < reloaded.len() && 0 <= j < reloaded.len() && i != j ==> reloaded[i].user_id
                != reloaded[j].user_id,
        forall|i: int| 0 <= i < snapshot.len() ==> reloaded.contains(#[trigger] snapshot[i]),
        forall|j: int| 0 <= j < reloaded.len() ==> snapshot.contains(#[trigger] reloaded[j]),
    ensures
        records_map(reloaded) == ledger,
{
    crate::ledger::lemma_records_map_distinct(snapshot);
    crate::ledger::lemma_records_map_distinct(reloaded);
    let s = snapshot;
    let t = reloaded;
    assert forall|u: i64| records_map(s).contains_key(u) implies records_map(t).contains_key(u)
        && records_map(t)[u] == records_map(s)[u] by {
        let i = choose|i: int| 0 <= i < s.len() && s[i].user_id == u;
        assert(t.contains(s[i]));
        let j = choose|j: int| 0 <= j < t.len() && t[j] == s[i];
        assert(records_map(t).contains_key(t[j].user_id));
    }
    assert forall|u: i64| records_map(t).contains_key(u) implies records_map(s).contains_key(u) by {
        let j = choose|j: int| 0 <= j < t.len() && t[j].user_id == u;
        assert(s.contains(t[j]));
        let i = choose|i: int| 0 <= i < s.len() && s[i] == t[j];
        assert(records_map(s).contains_key(s[i].user_id));
    }
    assert(records_map(s) =~= records_map(t));
}

/// While the manifest names no asset, every draw leaves the ledger alone,
/// and every draw let through by the cooldown ends in `NoAssets`.
pub proof fn lemma_empty_manifest_no_assets(
    text: Seq<char>,
    base: Seq<char>,
    guard: Map<i64, u64>,
    ledger: Map<i64, i64>,
    user_id: i64,
    now: u64,
    index: int,
    r: DrawOutcome,
)
    requires
        manifest_entries(text, base).len() == 0,
        outcome_of(r, guard, ledger, user_id, now, manifest_entries(text, base), index),
    ensures
        ledger_after(guard, ledger, user_id, now, manifest_entries(text, base), index) == ledger,
        accepted(guard, user_id, now) ==> r is NoAssets,
        !accepted(guard, user_id, now) ==> r is Throttled,
{
}

} // verus!
