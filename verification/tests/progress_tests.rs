use packsync::progress::ProgressSummary;
use packsync::UpgradeStatus;

fn consume(events: Vec<UpgradeStatus>) -> ProgressSummary {
    let mut summary = ProgressSummary::new();
    for event in &events {
        summary.record(event);
    }
    summary
}

/// One Length(2) and two Ticks complete a run of 2, whatever the order.
#[test]
fn accounting_is_order_independent() {
    let tick_first = consume(vec![
        UpgradeStatus::Tick,
        UpgradeStatus::Tick,
        UpgradeStatus::Length(2),
    ]);
    assert!(tick_first.complete(2));

    let total_first = consume(vec![
        UpgradeStatus::Length(2),
        UpgradeStatus::Tick,
        UpgradeStatus::Tick,
    ]);
    assert!(total_first.complete(2));

    let interleaved = consume(vec![
        UpgradeStatus::Tick,
        UpgradeStatus::Length(2),
        UpgradeStatus::Tick,
    ]);
    assert!(interleaved.complete(2));
}

#[test]
fn missing_or_extra_events_do_not_complete() {
    let no_total = consume(vec![UpgradeStatus::Tick, UpgradeStatus::Tick]);
    assert!(!no_total.complete(2));

    let short_ticks = consume(vec![UpgradeStatus::Length(2), UpgradeStatus::Tick]);
    assert!(!short_ticks.complete(2));

    let wrong_total = consume(vec![UpgradeStatus::Length(3), UpgradeStatus::Tick, UpgradeStatus::Tick]);
    assert!(!wrong_total.complete(2));

    let double_total = consume(vec![
        UpgradeStatus::Length(2),
        UpgradeStatus::Length(2),
        UpgradeStatus::Tick,
        UpgradeStatus::Tick,
    ]);
    assert!(!double_total.complete(2));
}

#[test]
fn empty_run_completes_at_zero() {
    let summary = consume(vec![UpgradeStatus::Length(0)]);
    assert!(summary.complete(0));
    assert!(!summary.complete(1));
}
