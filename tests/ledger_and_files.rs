use yurcoin::bootstrap::{bootstrap_manifest, image_extension, needs_bootstrap};
use yurcoin::catalog::{asset_value, parse_manifest, resolve_path};
use yurcoin::config::{
    choose_token, ledger_file, ledger_temp_file, manifest_file, resolve_data_dir, token_file,
    trimmed, Command,
};
use yurcoin::ledger::{BalanceLedger, BalanceRecord};
use yurcoin::persist::{first_step, is_logged, persist_next, PersistAction, PersistEnd, PersistStep};

fn rec(user_id: i64, balance: i64) -> BalanceRecord {
    BalanceRecord { user_id, balance }
}

#[test]
fn credit_then_get() {
    let mut ledger = BalanceLedger::new();
    assert_eq!(ledger.get(3), 0);
    assert_eq!(ledger.credit(3, 10), 10);
    assert_eq!(ledger.get(3), 10);
    assert_eq!(ledger.credit(3, 0), 10);
    assert_eq!(ledger.get(3), 10);
    assert_eq!(ledger.credit(-8, 1000), 1000);
    assert_eq!(ledger.get(-8), 1000);
    assert_eq!(ledger.get(3), 10);
}

#[test]
fn snapshot_is_sorted_and_detached() {
    let mut ledger = BalanceLedger::new();
    ledger.credit(30, 1);
    ledger.credit(10, 2);
    ledger.credit(20, 3);
    let snap = ledger.snapshot();
    assert_eq!(snap, vec![rec(10, 2), rec(20, 3), rec(30, 1)]);
    ledger.credit(10, 5);
    assert_eq!(snap[0], rec(10, 2));
}

#[test]
fn snapshot_reload_round_trip() {
    let mut ledger = BalanceLedger::new();
    for (u, v) in [(5, 10), (1, 1), (9, 1000), (5, 1)] {
        ledger.credit(u, v);
    }
    let snap = ledger.snapshot();
    let mut reversed = snap.clone();
    reversed.reverse();
    let reloaded = BalanceLedger::from_records(reversed);
    assert_eq!(reloaded.snapshot(), snap);
    for u in [1, 5, 9, 4] {
        assert_eq!(reloaded.get(u), ledger.get(u));
    }
}

#[test]
fn later_record_wins_on_load() {
    let ledger = BalanceLedger::from_records(vec![rec(1, 5), rec(2, 7), rec(1, 9)]);
    assert_eq!(ledger.get(1), 9);
    assert_eq!(ledger.get(2), 7);
    assert_eq!(ledger.snapshot(), vec![rec(1, 9), rec(2, 7)]);
    assert!(BalanceLedger::from_records(Vec::new()).snapshot().is_empty());
}

#[test]
fn failed_save_keeps_memory() {
    let mut ledger = BalanceLedger::new();
    ledger.credit(42, 10);
    ledger.credit(7, 1);
    let _snapshot = ledger.snapshot();
    let mut step = first_step();
    let mut steps = vec![step];
    let end = loop {
        let ok = !matches!(step, PersistStep::Rename | PersistStep::RetryRename);
        match persist_next(step, ok) {
            PersistAction::Run(next) => {
                step = next;
                steps.push(next);
            }
            PersistAction::Finish(end) => break end,
        }
    };
    assert_eq!(end, PersistEnd::RenameFailed);
    assert_eq!(
        steps,
        vec![
            PersistStep::CreateDir,
            PersistStep::Encode,
            PersistStep::WriteTemp,
            PersistStep::Rename,
            PersistStep::RemoveDestination,
            PersistStep::RetryRename,
            PersistStep::RemoveTemp,
        ]
    );
    assert!(is_logged(end));
    assert_eq!(ledger.get(42), 10);
    assert_eq!(ledger.get(7), 1);
}

#[test]
fn save_protocol_paths() {
    assert_eq!(persist_next(PersistStep::Rename, true), PersistAction::Finish(PersistEnd::Saved));
    assert_eq!(persist_next(PersistStep::RetryRename, true), PersistAction::Finish(PersistEnd::Saved));
    assert_eq!(persist_next(PersistStep::CreateDir, false), PersistAction::Finish(PersistEnd::DirFailed));
    assert_eq!(persist_next(PersistStep::Encode, false), PersistAction::Finish(PersistEnd::EncodeFailed));
    assert_eq!(persist_next(PersistStep::WriteTemp, false), PersistAction::Finish(PersistEnd::WriteFailed));
    assert_eq!(
        persist_next(PersistStep::RemoveDestination, false),
        PersistAction::Run(PersistStep::RetryRename)
    );
    assert!(!is_logged(PersistEnd::Saved));
    assert!(!is_logged(PersistEnd::EncodeFailed));
    assert!(is_logged(PersistEnd::WriteFailed));
}

#[test]
fn bootstrap_scenario() {
    let names = vec!["a.png".to_string(), "B.JPG".to_string(), "note.txt".to_string()];
    assert_eq!(bootstrap_manifest(&names), Some("B.JPG\na.png".to_string()));
}

#[test]
fn bootstrap_without_images() {
    let names = vec!["note.txt".to_string(), ".png".to_string(), "gif".to_string()];
    assert_eq!(bootstrap_manifest(&names), None);
    assert_eq!(bootstrap_manifest(&Vec::new()), None);
    let one = vec!["z.GiF".to_string(), "x.jpeg".to_string(), "y.Jpg".to_string()];
    assert_eq!(bootstrap_manifest(&one), Some("x.jpeg\ny.Jpg\nz.GiF".to_string()));
}

#[test]
fn image_extensions() {
    assert!(image_extension("a.JPEG"));
    assert!(image_extension("pic.tar.png"));
    assert!(image_extension("..png"));
    assert!(!image_extension(".png"));
    assert!(!image_extension("a.png.txt"));
    assert!(!image_extension("png"));
    assert!(!image_extension("a."));
}

#[test]
fn needs_bootstrap_only_without_entries() {
    assert!(needs_bootstrap("", "data"));
    assert!(needs_bootstrap("# only a comment\n  \n", "data"));
    assert!(!needs_bootstrap("x.png", "data"));
}

#[test]
fn manifest_lines() {
    let text = "  one.png  \r\n# comment\n\n/abs/two.png\nsub/three.gif";
    assert_eq!(
        parse_manifest(text, "data"),
        vec![
            "data/one.png".to_string(),
            "/abs/two.png".to_string(),
            "data/sub/three.gif".to_string(),
        ]
    );
    assert_eq!(parse_manifest("a.png\n", "base/"), vec!["base/a.png".to_string()]);
    assert_eq!(parse_manifest("a.png", ""), vec!["a.png".to_string()]);
    assert_eq!(parse_manifest("  #x.png\n", "d"), Vec::<String>::new());
}

#[test]
fn asset_values() {
    assert_eq!(asset_value("YurCoin0.png"), 0);
    assert_eq!(asset_value("data/YurCoin1.png"), 1);
    assert_eq!(asset_value("/srv/YurCoin10.png"), 10);
    assert_eq!(asset_value("YurCoin1000.png"), 1000);
    assert_eq!(asset_value("x/YurCoin10.png/"), 10);
    assert_eq!(asset_value("x/YurCoin10.png/."), 10);
    assert_eq!(asset_value("YurCoin10.png/.."), 0);
    assert_eq!(asset_value("yurcoin10.png"), 0);
    assert_eq!(asset_value(""), 0);
}

#[test]
fn data_dir_resolution() {
    assert_eq!(resolve_data_dir(None), "data");
    assert_eq!(resolve_data_dir(Some("   ")), "data");
    assert_eq!(resolve_data_dir(Some(" /srv/yc \n")), "/srv/yc");
    assert_eq!(trimmed("\t a b \u{3000}"), "a b");
}

#[test]
fn file_paths() {
    assert_eq!(ledger_file("data"), "data/balances.json");
    assert_eq!(ledger_temp_file("data/"), "data/balances.json.tmp");
    assert_eq!(manifest_file("/srv"), "/srv/images.env");
    assert_eq!(token_file("d"), "d/token.env");
    assert_eq!(resolve_path("d", "/etc/x"), "/etc/x");
}

#[test]
fn token_choice() {
    assert_eq!(choose_token(Some(" abc "), Some("zzz")), Some(" abc ".to_string()));
    assert_eq!(choose_token(Some("  "), Some("  tok  ")), Some("tok".to_string()));
    assert_eq!(choose_token(None, Some("tok")), Some("tok".to_string()));
    assert_eq!(choose_token(None, Some("   ")), None);
    assert_eq!(choose_token(None, None), None);
}

#[test]
fn commands() {
    assert_eq!(Command::parse("/start"), Command::Start);
    assert_eq!(Command::parse("Try My Luck"), Command::Draw);
    assert_eq!(Command::parse("Balance"), Command::Balance);
    assert_eq!(Command::parse("balance"), Command::Other);
    assert_eq!(Command::parse(""), Command::Other);
}
