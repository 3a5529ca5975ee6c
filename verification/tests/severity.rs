//! Severity escalation: monotone tiers, accumulating counters, and
//! the absorbing fatal mark.

use bibtex_core::severity::{Severity, SeverityTracker};

fn tier(s: Severity) -> u32 {
    match s {
        Severity::Spotless => 0,
        Severity::WarningIssued(_) => 1,
        Severity::ErrorIssued(_) => 2,
        Severity::FatalError => 3,
    }
}

#[test]
fn warnings_accumulate() {
    let mut t = SeverityTracker::new();
    assert_eq!(t.current(), Severity::Spotless);
    t.record_warning();
    assert_eq!(t.current(), Severity::WarningIssued(1));
    t.record_warning();
    assert_eq!(t.current(), Severity::WarningIssued(2));
}

#[test]
fn errors_upgrade_and_accumulate() {
    let mut t = SeverityTracker::new();
    t.record_warning();
    t.record_error();
    assert_eq!(t.current(), Severity::ErrorIssued(1));
    t.record_error();
    assert_eq!(t.current(), Severity::ErrorIssued(2));
    // a later warning no longer changes anything
    t.record_warning();
    assert_eq!(t.current(), Severity::ErrorIssued(2));
}

#[test]
fn tiers_never_decrease() {
    // every interleaving of eight recordings keeps the tier monotone
    for mask in 0u32..256 {
        let mut t = SeverityTracker::new();
        let mut prev = tier(t.current());
        for bit in 0..8 {
            if mask & (1 << bit) != 0 {
                t.record_error();
            } else {
                t.record_warning();
            }
            let cur = tier(t.current());
            assert!(cur >= prev);
            prev = cur;
        }
    }
}

#[test]
fn fatal_is_absorbing() {
    let mut t = SeverityTracker::new();
    t.force_fatal();
    assert_eq!(t.current(), Severity::FatalError);
    t.record_warning();
    t.record_error();
    assert_eq!(t.current(), Severity::FatalError);
}
