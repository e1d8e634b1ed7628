//! Aggregation of batch outcomes: success and failure counts, the advisory
//! on a high failure rate, and the process exit policy.

use vstd::prelude::*;

use crate::process::{Outcome, SpecOutcome};
use crate::Options;

verus! {

/// The views of a sequence of outcomes.
pub open spec fn outcome_views(v: Seq<Outcome>) -> Seq<SpecOutcome> {
    v.map_values(|o: Outcome| o@)
}

/// The number of successes among `s`.
pub open spec fn count_successes(s: Seq<SpecOutcome>) -> nat
    decreases s.len(),
{
    if s.len() == 0 {
        0
    } else {
        count_successes(s.drop_last()) + (if s.last() is Success {
            1nat
        } else {
            0nat
        })
    }
}

/// The aggregate view of one batch: counts, the advisory on a failure rate
/// above one half, and the exit decision.
#[derive(Clone, Copy, PartialEq, Eq, Structural, Debug)]
pub struct Report {
    /// How many phrases were processed.
    pub total: usize,
    /// How many phrases yielded entropy.
    pub successes: usize,
    /// How many phrases failed.
    pub failures: usize,
    /// Whether more than half of a non-empty batch failed, suggesting the
    /// input may not be a mnemonic word list of this vocabulary at all.
    pub advisory: bool,
    /// Whether the process should exit with a failure status: a non-empty
    /// batch with no success at all, and failures not tolerated.
    pub exit_failure: bool,
}

/// Partitions `outcomes` into successes and failures and decides the
/// advisory and the exit status under `opts`.
pub fn report(outcomes: &Vec<Outcome>, opts: Options) -> (r: Report)
    ensures
        r.total == outcomes@.len(),
        r.successes == count_successes(outcome_views(outcomes@)),
        r.failures == outcomes@.len() - count_successes(outcome_views(outcomes@)),
        r.advisory == (r.failures > 0 && 2 * r.failures > r.total),
        r.exit_failure == (r.total > 0 && r.successes == 0 && !opts.skip_invalid),
{
    let n = outcomes.len();
    let mut successes: usize = 0;
    let mut i: usize = 0;
    while i < n
        invariant
            n == outcomes@.len(),
            i <= n,
            successes == count_successes(outcome_views(outcomes@.take(i as int))),
            successes <= i,
        decreases n - i,
    {
        proof {
            assert(outcome_views(outcomes@.take(i as int + 1)).drop_last() =~~= outcome_views(
                outcomes@.take(i as int),
            ));
            assert(outcome_views(outcomes@.take(i as int + 1)).last() == outcomes@[i as int]@);
        }
        if outcomes[i].is_success() {
            successes = successes + 1;
        }
        i = i + 1;
    }
    proof {
        assert(outcomes@.take(n as int) =~= outcomes@);
        lemma_count_le(outcome_views(outcomes@));
    }
    let failures = n - successes;
    Report {
        total: n,
        successes,
        failures,
        advisory: failures > 0 && failures > n - failures,
        exit_failure: n > 0 && successes == 0 && !opts.skip_invalid,
    }
}

/// The success count never exceeds the length.
proof fn lemma_count_le(s: Seq<SpecOutcome>)
    ensures
        count_successes(s) <= s.len(),
    decreases s.len(),
{
    if s.len() > 0 {
        lemma_count_le(s.drop_last());
    }
}

} // verus!
