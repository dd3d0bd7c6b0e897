//! One draw attempt: cooldown check, uniform pick from the catalog, credit of
//! the picked asset's points.

use crate::catalog::{asset_value, asset_value_of, views, MAX_ASSET_VALUE};
use crate::cooldown::{decide, last_draw, mark, CooldownDecision, CooldownGuard};
use crate::ledger::{balance_in, BalanceLedger};
use rand::Rng;
use vstd::prelude::*;

verus! {

/// What a draw attempt ends in.
#[derive(Clone, Debug)]
pub enum DrawOutcome {
    /// The user drew too recently and must wait this many seconds.
    Throttled { wait_secs: u64 },
    /// The catalog holds no asset.
    NoAssets,
    /// The user won `asset`, worth `value` points, and now holds `balance`.
    Won { asset: String, value: i64, balance: i64 },
}

/// Points a draw at `index` gains from `catalog` (none from an empty one).
pub open spec fn draw_gain(catalog: Seq<Seq<char>>, index: int) -> int {
    if catalog.len() > 0 {
        asset_value_of(catalog[index]) as int
    } else {
        0
    }
}

/// Whether a draw at `now` is let through the cooldown.
pub open spec fn accepted(guard: Map<i64, u64>, user_id: i64, now: u64) -> bool {
    decide(last_draw(guard, user_id), now) == CooldownDecision::Accepted
}

/// The ledger after a draw by `user_id` at `now` that would pick `index`.
pub open spec fn ledger_after(
    guard: Map<i64, u64>,
    ledger: Map<i64, i64>,
    user_id: i64,
    now: u64,
    catalog: Seq<Seq<char>>,
    index: int,
) -> Map<i64, i64> {
    if accepted(guard, user_id, now) && catalog.len() > 0 {
        ledger.insert(user_id, (balance_in(ledger, user_id) + draw_gain(catalog, index)) as i64)
    } else {
        ledger
    }
}

/// Whether `r` is the outcome of that draw.
pub open spec fn outcome_of(
    r: DrawOutcome,
    guard: Map<i64, u64>,
    ledger: Map<i64, i64>,
    user_id: i64,
    now: u64,
    catalog: Seq<Seq<char>>,
    index: int,
) -> bool {
    match decide(last_draw(guard, user_id), now) {
        CooldownDecision::Rejected { wait_secs } => r == DrawOutcome::Throttled { wait_secs },
        CooldownDecision::Accepted => if catalog.len() == 0 {
            r is NoAssets
        } else {
            match r {
                DrawOutcome::Won { asset, value, balance } => {
                    &&& asset@ == catalog[index]
                    &&& value == asset_value_of(catalog[index])
                    &&& balance == balance_in(ledger, user_id) + value
                },
                _ => false,
            }
        },
    }
}

/// Relies on rand's `thread_rng().gen_range(0..n)`: a value below `n`,
/// drawn uniformly.
#[verifier::external_body]
fn random_below(n: usize) -> (r: usize)
    requires
        n > 0,
    ensures
        r < n,
{
    rand::thread_rng().gen_range(0..n)
}

/// A draw by `user_id` at `now` (milliseconds) that picks `catalog[index]`
/// if it gets past the cooldown and the catalog is not empty. A draw that
/// finds the catalog empty still spends the user's cooldown window.
pub fn draw_with_index(
    guard: &mut CooldownGuard,
    ledger: &mut BalanceLedger,
    user_id: i64,
    now: u64,
    catalog: &Vec<String>,
    index: usize,
) -> (r: DrawOutcome)
    requires
        old(ledger).wf(),
        catalog@.len() == 0 || index < catalog@.len(),
        i64::MIN <= balance_in(old(ledger)@, user_id) <= i64::MAX - MAX_ASSET_VALUE,
    ensures
        final(ledger).wf(),
        final(guard)@ == mark(old(guard)@, user_id, now),
        final(ledger)@ == ledger_after(
            old(guard)@,
            old(ledger)@,
            user_id,
            now,
            views(catalog@),
            index as int,
        ),
        outcome_of(r, old(guard)@, old(ledger)@, user_id, now, views(catalog@), index as int),
{
    match guard.check_and_mark(user_id, now) {
        CooldownDecision::Rejected { wait_secs } => DrawOutcome::Throttled { wait_secs },
        CooldownDecision::Accepted => {
            if catalog.len() == 0 {
                DrawOutcome::NoAssets
            } else {
                let asset = catalog[index].clone();
                let value = asset_value(asset.as_str());
                let balance = ledger.credit(user_id, value);
                DrawOutcome::Won { asset, value, balance }
            }
        },
    }
}

/// A draw by `user_id` at `now` (milliseconds) over `catalog`, picking an
/// entry uniformly at random when the draw gets that far.
pub fn attempt_draw(
    guard: &mut CooldownGuard,
    ledger: &mut BalanceLedger,
    user_id: i64,
    now: u64,
    catalog: &Vec<String>,
) -> (r: DrawOutcome)
    requires
        old(ledger).wf(),
        i64::MIN <= balance_in(old(ledger)@, user_id) <= i64::MAX - MAX_ASSET_VALUE,
    ensures
        final(ledger).wf(),
        final(guard)@ == mark(old(guard)@, user_id, now),
        exists|index: int|
            (catalog@.len() == 0 || 0 <= index < catalog@.len()) && final(ledger)@ == ledger_after(
                old(guard)@,
                old(ledger)@,
                user_id,
                now,
                views(catalog@),
                index,
            ) && outcome_of(r, old(guard)@, old(ledger)@, user_id, now, views(catalog@), index),
{
    let index: usize = if catalog.len() > 0 {
        random_below(catalog.len())
    } else {
        0
    };
    draw_with_index(guard, ledger, user_id, now, catalog, index)
}

} // verus!
