//! Severity tracking: a run's health classification that only ever
//! escalates. Warnings accumulate while the run is clean or warned,
//! errors accumulate (and upgrade a warned run), and a fatal mark is
//! absorbing.

use vstd::prelude::*;

verus! {

/// The escalating classification of a run's health.
///
/// The reporting order is `Spotless < WarningIssued < ErrorIssued <
/// FatalError`; the counters say how many warnings or error messages
/// were recorded.
#[derive(Clone, Copy, Debug, PartialEq, Eq, Structural)]
pub enum Severity {
    Spotless,
    WarningIssued(u32),
    ErrorIssued(u32),
    FatalError,
}

/// Position of a severity value in the reporting order.
pub open spec fn tier(s: Severity) -> int {
    match s {
        Severity::Spotless => 0,
        Severity::WarningIssued(_) => 1,
        Severity::ErrorIssued(_) => 2,
        Severity::FatalError => 3,
    }
}

/// The severity reached after one more warning is recorded.
///
/// A counter at `u32::MAX` stays there so that recording never fails.
pub open spec fn after_warning(s: Severity) -> Severity {
    match s {
        Severity::Spotless => Severity::WarningIssued(1),
        Severity::WarningIssued(c) => if c < u32::MAX {
            Severity::WarningIssued((c + 1) as u32)
        } else {
            Severity::WarningIssued(c)
        },
        _ => s,
    }
}

/// The severity reached after one more error is recorded.
pub open spec fn after_error(s: Severity) -> Severity {
    match s {
        Severity::Spotless => Severity::ErrorIssued(1),
        Severity::WarningIssued(_) => Severity::ErrorIssued(1),
        Severity::ErrorIssued(c) => if c < u32::MAX {
            Severity::ErrorIssued((c + 1) as u32)
        } else {
            Severity::ErrorIssued(c)
        },
        Severity::FatalError => s,
    }
}

/// Accumulates the worst condition seen during a run.
pub struct SeverityTracker {
    /// The severity reached so far.
    pub current: Severity,
}

impl SeverityTracker {
    /// A fresh tracker: nothing has gone wrong yet.
    pub fn new() -> (r: SeverityTracker)
        ensures
            r.current == Severity::Spotless,
    {
        SeverityTracker { current: Severity::Spotless }
    }

    /// The severity reached so far.
    pub fn current(&self) -> (r: Severity)
        ensures
            r == self.current,
    {
        self.current
    }

    /// Note one recoverable warning.
    pub fn record_warning(&mut self)
        ensures
            final(self).current == after_warning(old(self).current),
    {
        match self.current {
            Severity::Spotless => {
                self.current = Severity::WarningIssued(1);
            }
            Severity::WarningIssued(c) => {
                if c < u32::MAX {
                    self.current = Severity::WarningIssued(c + 1);
                }
            }
            _ => {}
        }
    }

    /// Note one recoverable error; upgrades a clean or warned run.
    pub fn record_error(&mut self)
        ensures
            final(self).current == after_error(old(self).current),
    {
        match self.current {
            Severity::Spotless | Severity::WarningIssued(_) => {
                self.current = Severity::ErrorIssued(1);
            }
            Severity::ErrorIssued(c) => {
                if c < u32::MAX {
                    self.current = Severity::ErrorIssued(c + 1);
                }
            }
            Severity::FatalError => {}
        }
    }

    /// Record an unrecoverable condition; nothing escalates past it.
    pub fn force_fatal(&mut self)
        ensures
            final(self).current == Severity::FatalError,
    {
        self.current = Severity::FatalError;
    }
}

/// Law: recording a warning never lowers the severity tier.
pub proof fn lemma_warning_monotone(s: Severity)
    ensures
        tier(after_warning(s)) >= tier(s),
{
}

/// Law: recording an error never lowers the severity tier.
pub proof fn lemma_error_monotone(s: Severity)
    ensures
        tier(after_error(s)) >= tier(s),
{
}

/// Law: a fatal mark is absorbing; no later recording changes it.
pub proof fn lemma_fatal_absorbing()
    ensures
        after_warning(Severity::FatalError) == Severity::FatalError,
        after_error(Severity::FatalError) == Severity::FatalError,
{
}

/// The severity after a whole sequence of recordings; `true` records
/// an error, `false` a warning.
pub open spec fn after_all(s: Severity, ops: Seq<bool>) -> Severity
    decreases ops.len(),
{
    if ops.len() == 0 {
        s
    } else {
        after_all(
            if ops[0] {
                after_error(s)
            } else {
                after_warning(s)
            },
            ops.subrange(1, ops.len() as int),
        )
    }
}

/// Law: no sequence of warning and error recordings ever lowers the
/// severity tier.
pub proof fn lemma_sequence_monotone(s: Severity, ops: Seq<bool>)
    ensures
        tier(after_all(s, ops)) >= tier(s),
    decreases ops.len(),
{
    if ops.len() > 0 {
        let s1 = if ops[0] {
            after_error(s)
        } else {
            after_warning(s)
        };
        lemma_sequence_monotone(s1, ops.subrange(1, ops.len() as int));
    }
}

/// Law: once fatal, a run stays fatal under every later sequence of
/// recordings.
pub proof fn lemma_fatal_absorbing_all(ops: Seq<bool>)
    ensures
        after_all(Severity::FatalError, ops) == Severity::FatalError,
    decreases ops.len(),
{
    if ops.len() > 0 {
        lemma_fatal_absorbing_all(ops.subrange(1, ops.len() as int));
    }
}

} // verus!

