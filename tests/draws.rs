use yurcoin::catalog::parse_manifest;
use yurcoin::cooldown::{CooldownDecision, CooldownGuard};
use yurcoin::draw::{attempt_draw, draw_with_index, DrawOutcome};
use yurcoin::ledger::BalanceLedger;

fn won(outcome: &DrawOutcome) -> (String, i64, i64) {
    match outcome {
        DrawOutcome::Won { asset, value, balance } => (asset.clone(), *value, *balance),
        other => panic!("expected a win, got {:?}", other),
    }
}

#[test]
fn draw_throttle_scenario() {
    let mut guard = CooldownGuard::new();
    let mut ledger = BalanceLedger::new();
    let catalog = vec!["data/YurCoin10.png".to_string()];
    let first = attempt_draw(&mut guard, &mut ledger, 42, 0, &catalog);
    assert_eq!(won(&first), ("data/YurCoin10.png".to_string(), 10, 10));
    let second = attempt_draw(&mut guard, &mut ledger, 42, 2000, &catalog);
    assert!(matches!(second, DrawOutcome::Throttled { wait_secs: 3 }));
    let third = attempt_draw(&mut guard, &mut ledger, 42, 6000, &catalog);
    assert_eq!(won(&third), ("data/YurCoin10.png".to_string(), 10, 20));
    assert_eq!(ledger.get(42), 20);
}

#[test]
fn spaced_draws_add_up_values() {
    let mut guard = CooldownGuard::new();
    let mut ledger = BalanceLedger::new();
    let catalog = vec![
        "YurCoin1.png".to_string(),
        "YurCoin10.png".to_string(),
        "YurCoin1000.png".to_string(),
        "other.gif".to_string(),
    ];
    let picks = [2usize, 0, 1, 3, 1];
    let mut sum = 0;
    for (k, &i) in picks.iter().enumerate() {
        let now = 5000 * k as u64;
        let outcome = draw_with_index(&mut guard, &mut ledger, 7, now, &catalog, i);
        let (_, value, balance) = won(&outcome);
        sum += value;
        assert_eq!(balance, sum);
    }
    assert_eq!(sum, 1000 + 1 + 10 + 0 + 10);
    assert_eq!(ledger.get(7), sum);
}

#[test]
fn close_draw_is_throttled_and_keeps_balance() {
    let mut guard = CooldownGuard::new();
    let mut ledger = BalanceLedger::new();
    let catalog = vec!["YurCoin1.png".to_string()];
    draw_with_index(&mut guard, &mut ledger, 5, 1000, &catalog, 0);
    let before = ledger.get(5);
    let outcome = draw_with_index(&mut guard, &mut ledger, 5, 5999, &catalog, 0);
    assert!(matches!(outcome, DrawOutcome::Throttled { wait_secs: 1 }));
    assert_eq!(ledger.get(5), before);
    let outcome = draw_with_index(&mut guard, &mut ledger, 5, 6000, &catalog, 0);
    assert_eq!(won(&outcome).2, before + 1);
}

#[test]
fn empty_manifest_gives_no_assets() {
    let mut guard = CooldownGuard::new();
    let mut ledger = BalanceLedger::new();
    let catalog = parse_manifest("# nothing yet\n\n   \n", "data");
    assert!(catalog.is_empty());
    let a = attempt_draw(&mut guard, &mut ledger, 1, 0, &catalog);
    assert!(matches!(a, DrawOutcome::NoAssets));
    let b = attempt_draw(&mut guard, &mut ledger, 1, 1000, &catalog);
    assert!(matches!(b, DrawOutcome::Throttled { wait_secs: 4 }));
    let c = attempt_draw(&mut guard, &mut ledger, 1, 5000, &catalog);
    assert!(matches!(c, DrawOutcome::NoAssets));
    assert_eq!(ledger.get(1), 0);
    let filled = parse_manifest("YurCoin1.png\n", "data");
    let d = attempt_draw(&mut guard, &mut ledger, 1, 10000, &filled);
    assert_eq!(won(&d), ("data/YurCoin1.png".to_string(), 1, 1));
}

#[test]
fn users_have_separate_cooldowns() {
    let mut guard = CooldownGuard::new();
    assert_eq!(guard.check_and_mark(1, 100), CooldownDecision::Accepted);
    assert_eq!(guard.check_and_mark(2, 200), CooldownDecision::Accepted);
    assert_eq!(guard.check_and_mark(1, 300), CooldownDecision::Rejected { wait_secs: 4 });
}

#[test]
fn cooldown_wait_is_never_zero() {
    let mut guard = CooldownGuard::new();
    assert_eq!(guard.check_and_mark(3, 10_000), CooldownDecision::Accepted);
    assert_eq!(guard.check_and_mark(3, 14_500), CooldownDecision::Rejected { wait_secs: 1 });
    assert_eq!(guard.check_and_mark(3, 14_999), CooldownDecision::Rejected { wait_secs: 1 });
    assert_eq!(guard.check_and_mark(3, 10_000), CooldownDecision::Rejected { wait_secs: 5 });
    assert_eq!(guard.check_and_mark(3, 9_000), CooldownDecision::Rejected { wait_secs: 5 });
    assert_eq!(guard.check_and_mark(3, 15_000), CooldownDecision::Accepted);
    assert_eq!(guard.check_and_mark(3, 15_001), CooldownDecision::Rejected { wait_secs: 4 });
}

#[test]
fn random_draw_picks_from_catalog() {
    let mut guard = CooldownGuard::new();
    let mut ledger = BalanceLedger::new();
    let catalog = vec!["a/YurCoin1.png".to_string(), "b/YurCoin10.png".to_string()];
    for k in 0..20u64 {
        let outcome = attempt_draw(&mut guard, &mut ledger, 9, k * 5000, &catalog);
        let (asset, value, _) = won(&outcome);
        assert!(catalog.contains(&asset));
        assert_eq!(value, if asset.starts_with("a/") { 1 } else { 10 });
    }
}
