//! Rendering the run's one human-readable summary line from the
//! final severity, down to the decimal digits of the counters. The
//! driver alone turns a severity into user-visible text; no other
//! component prints.

use vstd::prelude::*;

verus! {

use crate::severity::Severity;

/// The decimal digits of `n`, most significant first.
pub open spec fn dec_rep(n: nat) -> Seq<u8>
    decreases n,
{
    if n < 10 {
        seq![(48 + n) as u8]
    } else {
        dec_rep(n / 10).push((48 + n % 10) as u8)
    }
}

/// Render `n` in decimal.
pub fn u32_to_dec(n: u32) -> (r: Vec<u8>)
    ensures
        r@ == dec_rep(n as nat),
    decreases n,
{
    if n < 10 {
        let mut v: Vec<u8> = Vec::new();
        v.push(48 + n as u8);
        proof {
            assert(v@ =~= dec_rep(n as nat));
        }
        v
    } else {
        let mut v = u32_to_dec(n / 10);
        v.push(48 + (n % 10) as u8);
        proof {
            assert(v@ =~= dec_rep(n as nat));
        }
        v
    }
}

/// The summary text for one warning.
pub open spec fn lit_one_warning() -> Seq<u8> {
    seq![40u8, 84u8, 104u8, 101u8, 114u8, 101u8, 32u8, 119u8, 97u8, 115u8, 32u8, 49u8, 32u8, 119u8, 97u8, 114u8, 110u8, 105u8, 110u8, 103u8, 41u8, 10u8]
}

/// The opening of a plural summary.
pub open spec fn lit_there_were() -> Seq<u8> {
    seq![40u8, 84u8, 104u8, 101u8, 114u8, 101u8, 32u8, 119u8, 101u8, 114u8, 101u8, 32u8]
}

/// The closing of the plural warning summary.
pub open spec fn lit_warnings_tail() -> Seq<u8> {
    seq![32u8, 119u8, 97u8, 114u8, 110u8, 105u8, 110u8, 103u8, 115u8, 41u8, 10u8]
}

/// The summary text for one error message.
pub open spec fn lit_one_error() -> Seq<u8> {
    seq![40u8, 84u8, 104u8, 101u8, 114u8, 101u8, 32u8, 119u8, 97u8, 115u8, 32u8, 49u8, 32u8, 101u8, 114u8, 114u8, 111u8, 114u8, 32u8, 109u8, 101u8, 115u8, 115u8, 97u8, 103u8, 101u8, 41u8, 10u8]
}

/// The closing of the plural error summary.
pub open spec fn lit_errors_tail() -> Seq<u8> {
    seq![32u8, 101u8, 114u8, 114u8, 111u8, 114u8, 32u8, 109u8, 101u8, 115u8, 115u8, 97u8, 103u8, 101u8, 115u8, 41u8, 10u8]
}

/// The summary text for a run that hit a fatal condition.
pub open spec fn lit_fatal() -> Seq<u8> {
    seq![40u8, 84u8, 104u8, 97u8, 116u8, 32u8, 119u8, 97u8, 115u8, 32u8, 97u8, 32u8, 102u8, 97u8, 116u8, 97u8, 108u8, 32u8, 101u8, 114u8, 114u8, 111u8, 114u8, 41u8, 10u8]
}

/// The one summary line classifying a run by its final severity:
/// nothing when spotless, a singular or plural warning or error
/// count, or the fatal notice.
pub open spec fn spec_summary(s: Severity) -> Seq<u8> {
    match s {
        Severity::Spotless => Seq::empty(),
        Severity::WarningIssued(c) => if c == 1 {
            lit_one_warning()
        } else {
            lit_there_were() + dec_rep(c as nat) + lit_warnings_tail()
        },
        Severity::ErrorIssued(c) => if c == 1 {
            lit_one_error()
        } else {
            lit_there_were() + dec_rep(c as nat) + lit_errors_tail()
        },
        Severity::FatalError => lit_fatal(),
    }
}

/// Render the summary line for `s`.
pub fn summary_line(s: Severity) -> (r: Vec<u8>)
    ensures
        r@ == spec_summary(s),
{
    match s {
        Severity::Spotless => Vec::new(),
        Severity::WarningIssued(c) => if c == 1 {
            let mut v: Vec<u8> = Vec::new();
            v.push(40u8);
            v.push(84u8);
            v.push(104u8);
            v.push(101u8);
            v.push(114u8);
            v.push(101u8);
            v.push(32u8);
            v.push(119u8);
            v.push(97u8);
            v.push(115u8);
            v.push(32u8);
            v.push(49u8);
            v.push(32u8);
            v.push(119u8);
            v.push(97u8);
            v.push(114u8);
            v.push(110u8);
            v.push(105u8);
            v.push(110u8);
            v.push(103u8);
            v.push(41u8);
            v.push(10u8);
            proof {
                assert(v@ =~= lit_one_warning());
            }
            v
        } else {
            let mut v: Vec<u8> = Vec::new();
            v.push(40u8);
            v.push(84u8);
            v.push(104u8);
            v.push(101u8);
            v.push(114u8);
            v.push(101u8);
            v.push(32u8);
            v.push(119u8);
            v.push(101u8);
            v.push(114u8);
            v.push(101u8);
            v.push(32u8);
            proof {
                assert(v@ =~= lit_there_were());
            }
            let mut d = u32_to_dec(c);
            v.append(&mut d);
            let mut tail: Vec<u8> = Vec::new();
            tail.push(32u8);
            tail.push(119u8);
            tail.push(97u8);
            tail.push(114u8);
            tail.push(110u8);
            tail.push(105u8);
            tail.push(110u8);
            tail.push(103u8);
            tail.push(115u8);
            tail.push(41u8);
            tail.push(10u8);
            proof {
                assert(tail@ =~= lit_warnings_tail());
            }
            v.append(&mut tail);
            v
        },
        Severity::ErrorIssued(c) => if c == 1 {
            let mut v: Vec<u8> = Vec::new();
            v.push(40u8);
            v.push(84u8);
            v.push(104u8);
            v.push(101u8);
            v.push(114u8);
            v.push(101u8);
            v.push(32u8);
            v.push(119u8);
            v.push(97u8);
            v.push(115u8);
            v.push(32u8);
            v.push(49u8);
            v.push(32u8);
            v.push(101u8);
            v.push(114u8);
            v.push(114u8);
            v.push(111u8);
            v.push(114u8);
            v.push(32u8);
            v.push(109u8);
            v.push(101u8);
            v.push(115u8);
            v.push(115u8);
            v.push(97u8);
            v.push(103u8);
            v.push(101u8);
            v.push(41u8);
            v.push(10u8);
            proof {
                assert(v@ =~= lit_one_error());
            }
            v
        } else {
            let mut v: Vec<u8> = Vec::new();
            v.push(40u8);
            v.push(84u8);
            v.push(104u8);
            v.push(101u8);
            v.push(114u8);
            v.push(101u8);
            v.push(32u8);
            v.push(119u8);
            v.push(101u8);
            v.push(114u8);
            v.push(101u8);
            v.push(32u8);
            proof {
                assert(v@ =~= lit_there_were());
            }
            let mut d = u32_to_dec(c);
            v.append(&mut d);
            let mut tail: Vec<u8> = Vec::new();
            tail.push(32u8);
            tail.push(101u8);
            tail.push(114u8);
            tail.push(114u8);
            tail.push(111u8);
            tail.push(114u8);
            tail.push(32u8);
            tail.push(109u8);
            tail.push(101u8);
            tail.push(115u8);
            tail.push(115u8);
            tail.push(97u8);
            tail.push(103u8);
            tail.push(101u8);
            tail.push(115u8);
            tail.push(41u8);
            tail.push(10u8);
            proof {
                assert(tail@ =~= lit_errors_tail());
            }
            v.append(&mut tail);
            v
        },
        Severity::FatalError => {
            let mut v: Vec<u8> = Vec::new();
            v.push(40u8);
            v.push(84u8);
            v.push(104u8);
            v.push(97u8);
            v.push(116u8);
            v.push(32u8);
            v.push(119u8);
            v.push(97u8);
            v.push(115u8);
            v.push(32u8);
            v.push(97u8);
            v.push(32u8);
            v.push(102u8);
            v.push(97u8);
            v.push(116u8);
            v.push(97u8);
            v.push(108u8);
            v.push(32u8);
            v.push(101u8);
            v.push(114u8);
            v.push(114u8);
            v.push(111u8);
            v.push(114u8);
            v.push(41u8);
            v.push(10u8);
            proof {
                assert(v@ =~= lit_fatal());
            }
            v
        },
    }
}

} // verus!
