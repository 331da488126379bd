//! The default summary view, and the reducer from the retained model to it.
//!
//! The summary is small and can be aggregated. Signals of high value (the mix of statuses,
//! throttling, the total charge, the first error, retries) are always there; noisier detail is
//! there only where it exceeds a threshold.

use vstd::prelude::*;
use vstd::string::*;

use crate::charge::{charge_exceeds, exceeds};
use crate::combo2::model::{AttemptRecModel, Captured, CapturedModel};
use crate::laws::summaries::{
    count_of, counts_statuses, law_tiered_charges, law_tiered_summary_counts,
};
use crate::scenarios::opt_text;
use crate::status::failure_kind_of;
use crate::tally::{
    first_failure, histogram, law_first_failure_is_the_first, law_histogram_entry, occurrences,
    tally_statuses,
};
use crate::text::{decimal, digits};
use crate::text_map::TextMap;

verus! {

/// The bit pattern of ten request units.
pub const TEN_REQUEST_UNITS: u64 = 0x4024_0000_0000_0000;

/// Thresholds for the signals that are surfaced only on a condition.
#[derive(Clone, Copy, Debug)]
pub struct SummaryThresholds {
    /// Surface the duration of the slowest attempt only where it exceeds this (ns).
    pub slow_attempt_ns: u64,
    /// Surface the total charge as `high_charge` only where it exceeds this: the bit pattern of a
    /// number of request units.
    pub request_charge_ru: u64,
}

impl Default for SummaryThresholds {
    /// Five milliseconds, so that fast point reads stay quiet, and ten request units, which a
    /// single cheap point read does not reach.
    fn default() -> (t: Self)
        ensures
            t.slow_attempt_ns == 5_000_000,
            t.request_charge_ru == TEN_REQUEST_UNITS,
    {
        SummaryThresholds { slow_attempt_ns: 5_000_000, request_charge_ru: TEN_REQUEST_UNITS }
    }
}

/// The first error that an operation met.
#[derive(Clone, Debug, PartialEq)]
pub struct TopError {
    /// HTTP status of the error.
    pub status: u16,
    /// Coarse error kind.
    pub error_kind: String,
    /// Service request id of the failing attempt, where there is one.
    pub service_request_id: Option<String>,
}

/// What a [`TopError`] holds.
#[verifier::ext_equal]
pub struct TopErrorModel {
    pub status: u16,
    pub error_kind: Seq<char>,
    pub service_request_id: Option<Seq<char>>,
}

impl View for TopError {
    type V = TopErrorModel;

    open spec fn view(&self) -> TopErrorModel {
        TopErrorModel {
            status: self.status,
            error_kind: self.error_kind@,
            service_request_id: opt_text(self.service_request_id),
        }
    }
}

/// The default summary view.
#[derive(Clone, Debug)]
pub struct Summary {
    /// Operation name.
    pub operation: String,
    /// `success` or `error`.
    pub outcome: &'static str,
    /// Whether the operation ultimately succeeded.
    pub succeeded: bool,
    /// Total attempt count.
    pub attempt_count: u32,
    /// Retries: attempts beyond the first.
    pub retry_count: u32,
    /// Total elapsed time (ns).
    pub total_elapsed_ns: u64,
    /// The bit pattern of the charge summed over the attempts.
    pub total_request_charge: u64,
    /// How many attempts were throttled (429).
    pub throttle_count: u32,
    /// How often each status occurred.
    pub status_counts: TextMap<u32>,
    /// Service request id of the final attempt, the one that a customer quotes in a ticket.
    pub final_service_request_id: Option<String>,
    /// Number of fan-out children.
    pub child_count: usize,
    /// The first error, where there was one.
    pub top_error: Option<TopError>,
    /// The duration of the slowest attempt, where it exceeds the threshold.
    pub slow_attempt_ns: Option<u64>,
    /// The bit pattern of the total charge, where it exceeds the threshold.
    pub high_charge: Option<u64>,
}

/// What a [`Summary`] holds.
#[verifier::ext_equal]
pub struct SummaryModel {
    pub operation: Seq<char>,
    pub outcome: Seq<char>,
    pub succeeded: bool,
    pub attempt_count: u32,
    pub retry_count: u32,
    pub total_elapsed_ns: u64,
    pub total_request_charge: u64,
    pub throttle_count: u32,
    pub status_counts: Map<Seq<char>, u32>,
    pub final_service_request_id: Option<Seq<char>>,
    pub child_count: usize,
    pub top_error: Option<TopErrorModel>,
    pub slow_attempt_ns: Option<u64>,
    pub high_charge: Option<u64>,
}

/// What an optional top error holds.
pub open spec fn opt_top_error(e: Option<TopError>) -> Option<TopErrorModel> {
    match e {
        Some(t) => Some(t@),
        None => None,
    }
}

impl View for Summary {
    type V = SummaryModel;

    open spec fn view(&self) -> SummaryModel {
        SummaryModel {
            operation: self.operation@,
            outcome: self.outcome@,
            succeeded: self.succeeded,
            attempt_count: self.attempt_count,
            retry_count: self.retry_count,
            total_elapsed_ns: self.total_elapsed_ns,
            total_request_charge: self.total_request_charge,
            throttle_count: self.throttle_count,
            status_counts: self.status_counts@,
            final_service_request_id: opt_text(self.final_service_request_id),
            child_count: self.child_count,
            top_error: opt_top_error(self.top_error),
            slow_attempt_ns: self.slow_attempt_ns,
            high_charge: self.high_charge,
        }
    }
}

/// The statuses of attempts, in order.
pub open spec fn statuses_of(attempts: Seq<AttemptRecModel>) -> Seq<u16> {
    attempts.map_values(|a: AttemptRecModel| a.status)
}

/// How long the slowest attempt took; zero where there was none.
pub open spec fn slowest_of(attempts: Seq<AttemptRecModel>) -> u64
    decreases attempts.len(),
{
    if attempts.len() == 0 {
        0
    } else {
        let before = slowest_of(attempts.drop_last());
        if attempts.last().duration_ns > before {
            attempts.last().duration_ns
        } else {
            before
        }
    }
}

/// The bit patterns of the charges that attempts carry, in order.
pub open spec fn charges_of(attempts: Seq<AttemptRecModel>) -> Seq<u64>
    decreases attempts.len(),
{
    if attempts.len() == 0 {
        Seq::empty()
    } else {
        let before = charges_of(attempts.drop_last());
        match attempts.last().request_charge {
            Some(c) => before.push(c.bits),
            None => before,
        }
    }
}

/// The first error among attempts.
pub open spec fn top_error_of(attempts: Seq<AttemptRecModel>) -> Option<TopErrorModel> {
    match first_failure(statuses_of(attempts)) {
        Some(i) => Some(
            TopErrorModel {
                status: attempts[i].status,
                error_kind: failure_kind_of(attempts[i].status)->0,
                service_request_id: attempts[i].service_request_id,
            },
        ),
        None => None,
    }
}

/// The service request id of the final attempt.
pub open spec fn final_id_of(attempts: Seq<AttemptRecModel>) -> Option<Seq<char>> {
    if attempts.len() == 0 {
        None
    } else {
        attempts.last().service_request_id
    }
}

/// Attempts beyond the first.
pub open spec fn retries(attempt_count: u32) -> u32 {
    if attempt_count == 0 {
        0
    } else {
        (attempt_count - 1) as u32
    }
}

/// The summary of a retained model whose charges add up to the number with pattern `total`.
pub open spec fn summary_of(
    c: CapturedModel,
    slow_attempt_ns: u64,
    request_charge_ru: u64,
    total: u64,
) -> SummaryModel {
    SummaryModel {
        operation: c.operation,
        outcome: c.outcome().word(),
        succeeded: c.succeeded,
        attempt_count: c.attempt_count,
        retry_count: retries(c.attempt_count),
        total_elapsed_ns: c.total_ns,
        total_request_charge: total,
        throttle_count: occurrences(statuses_of(c.attempts), 429) as u32,
        status_counts: histogram(statuses_of(c.attempts)),
        final_service_request_id: final_id_of(c.attempts),
        child_count: c.children.len() as usize,
        top_error: top_error_of(c.attempts),
        slow_attempt_ns: if slowest_of(c.attempts) > slow_attempt_ns {
            Some(slowest_of(c.attempts))
        } else {
            None
        },
        high_charge: if exceeds(total, request_charge_ru) {
            Some(total)
        } else {
            None
        },
    }
}

/// The slowest attempt is as slow as any, and it is one of them.
pub proof fn law_slowest_is_the_maximum(attempts: Seq<AttemptRecModel>)
    ensures
        forall|i: int|
            0 <= i < attempts.len() ==> (#[trigger] attempts[i]).duration_ns <= slowest_of(attempts),
        attempts.len() > 0 ==> exists|i: int|
            0 <= i < attempts.len() && (#[trigger] attempts[i]).duration_ns == slowest_of(attempts),
    decreases attempts.len(),
{
    if attempts.len() > 0 {
        let init = attempts.drop_last();
        law_slowest_is_the_maximum(init);
        assert forall|i: int| 0 <= i < attempts.len() implies (
        #[trigger] attempts[i]).duration_ns <= slowest_of(attempts) by {
            if i < init.len() {
                assert(init[i] == attempts[i]);
            }
        }
        if attempts.last().duration_ns > slowest_of(init) || init.len() == 0 {
            assert(attempts[attempts.len() - 1].duration_ns == slowest_of(attempts));
        } else {
            let i = choose|i: int|
                0 <= i < init.len() && (#[trigger] init[i]).duration_ns == slowest_of(init);
            assert(attempts[i].duration_ns == slowest_of(attempts));
        }
    }
}

/// The bit patterns of the charges that the attempts carry, in order. The total charge is their
/// sum, taken from zero in this order.
pub fn charge_terms(captured: &Captured) -> (terms: Vec<u64>)
    ensures
        terms@ == charges_of(captured@.attempts),
        terms@ == captured@.attempts.filter(
            |a: AttemptRecModel| a.request_charge is Some,
        ).map_values(|a: AttemptRecModel| a.request_charge->0.bits),
        (forall|i: int|
            0 <= i < captured.attempts@.len() ==> (
            #[trigger] captured.attempts@[i]).request_charge is Some) ==> {
            &&& terms@.len() == captured.attempts@.len()
            &&& forall|i: int|
                0 <= i < terms@.len() ==> #[trigger] terms@[i]
                    == captured.attempts@[i].request_charge->0.bits
        },
{
    let ghost attempts = captured@.attempts;
    let mut terms: Vec<u64> = Vec::new();
    let mut i: usize = 0;
    while i < captured.attempts.len()
        invariant
            i <= captured.attempts.len(),
            attempts == captured@.attempts,
            terms@ == charges_of(attempts.take(i as int)),
        decreases captured.attempts.len() - i,
    {
        proof {
            assert(attempts.take(i + 1).drop_last() =~= attempts.take(i as int));
            assert(attempts.take(i + 1).last() == captured.attempts@[i as int]@);
        }
        if let Some(c) = &captured.attempts[i].request_charge {
            terms.push(c.bits);
        }
        i = i + 1;
    }
    proof {
        assert(attempts.take(i as int) =~= attempts);
        law_tiered_charges(attempts);
        if forall|k: int|
            0 <= k < captured.attempts@.len() ==> (
            #[trigger] captured.attempts@[k]).request_charge is Some {
            assert forall|k: int| 0 <= k < attempts.len() implies (
            #[trigger] attempts[k]).request_charge is Some by {
                assert(captured.attempts@[k].request_charge is Some);
            }
            assert forall|k: int| 0 <= k < terms@.len() implies #[trigger] terms@[k]
                == captured.attempts@[k].request_charge->0.bits by {
                assert(charges_of(attempts)[k] == attempts[k].request_charge->0.bits);
            }
        }
    }
    terms
}

/// Copies an optional string.
pub fn copy_optional_text(s: &Option<String>) -> (copy: Option<String>)
    ensures
        opt_text(copy) == opt_text(*s),
{
    match s {
        Some(t) => Some(t.clone()),
        None => None,
    }
}

/// The statuses of the attempts, in order.
fn attempt_statuses(captured: &Captured) -> (statuses: Vec<u16>)
    ensures
        statuses@ == statuses_of(captured@.attempts),
{
    let mut statuses: Vec<u16> = Vec::new();
    let mut i: usize = 0;
    while i < captured.attempts.len()
        invariant
            i <= captured.attempts.len(),
            statuses@.len() == i,
            forall|k: int| 0 <= k < i ==> statuses@[k] == (#[trigger] captured.attempts@[k]).status,
        decreases captured.attempts.len() - i,
    {
        statuses.push(captured.attempts[i].status);
        i = i + 1;
    }
    proof {
        assert(statuses@ =~= statuses_of(captured@.attempts));
    }
    statuses
}

/// How long the slowest attempt took; zero where there was none.
fn slowest_attempt(captured: &Captured) -> (slowest: u64)
    ensures
        slowest == slowest_of(captured@.attempts),
{
    let ghost attempts = captured@.attempts;
    let mut slowest: u64 = 0;
    let mut i: usize = 0;
    while i < captured.attempts.len()
        invariant
            i <= captured.attempts.len(),
            attempts == captured@.attempts,
            slowest == slowest_of(attempts.take(i as int)),
        decreases captured.attempts.len() - i,
    {
        proof {
            assert(attempts.take(i + 1).drop_last() =~= attempts.take(i as int));
            assert(attempts.take(i + 1).last() == captured.attempts@[i as int]@);
        }
        if captured.attempts[i].duration_ns > slowest {
            slowest = captured.attempts[i].duration_ns;
        }
        i = i + 1;
    }
    proof {
        assert(attempts.take(i as int) =~= attempts);
    }
    slowest
}

/// Reduces the retained model to the summary view. `total` is the bit pattern of the sum of
/// [`charge_terms`].
pub fn reduce(captured: &Captured, thresholds: &SummaryThresholds, total: u64) -> (s: Summary)
    requires
        captured@.attempts.len() <= u32::MAX,
    ensures
        s@ == summary_of(
            captured@,
            thresholds.slow_attempt_ns,
            thresholds.request_charge_ru,
            total,
        ),
        s.operation@ == captured.operation@,
        s.succeeded == captured.succeeded,
        s.attempt_count == captured.attempt_count,
        s.attempt_count > 0 ==> s.retry_count + 1 == s.attempt_count,
        s.attempt_count == 0 ==> s.retry_count == 0,
        s.total_elapsed_ns == captured.total_ns,
        s.total_request_charge == total,
        s.child_count == captured.children@.len(),
        ({
            let statuses = captured@.attempts.map_values(|a: AttemptRecModel| a.status);
            s.throttle_count == count_of(statuses, 429) && counts_statuses(
                s.status_counts@,
                statuses,
            )
        }),
{
    let child_count: usize = captured.children.len();
    proof {
        law_tiered_summary_counts(
            captured@,
            thresholds.slow_attempt_ns,
            thresholds.request_charge_ru,
            total,
        );
    }
    let statuses = attempt_statuses(captured);
    let tally = tally_statuses(&statuses);
    proof {
        law_first_failure_is_the_first(statuses@);
    }
    let top_error: Option<TopError> = match tally.first_failure {
        Some(i) => {
            let attempt = &captured.attempts[i];
            proof {
                assert(captured@.attempts[i as int] == attempt@);
                assert(statuses@[i as int] == attempt.status);
            }
            match attempt.error_kind() {
                Some(kind) => Some(
                    TopError {
                        status: attempt.status,
                        error_kind: kind.to_owned(),
                        service_request_id: copy_optional_text(&attempt.service_request_id),
                    },
                ),
                None => None,
            }
        },
        None => None,
    };
    let n: usize = captured.attempts.len();
    let final_service_request_id: Option<String> = if n == 0 {
        None
    } else {
        proof {
            assert(captured@.attempts.last() == captured.attempts@[n - 1]@);
        }
        copy_optional_text(&captured.attempts[n - 1].service_request_id)
    };
    let slowest: u64 = slowest_attempt(captured);
    Summary {
        operation: captured.operation.clone(),
        outcome: captured.outcome().as_str(),
        succeeded: captured.succeeded,
        attempt_count: captured.attempt_count,
        retry_count: captured.attempt_count.saturating_sub(1),
        total_elapsed_ns: captured.total_ns,
        total_request_charge: total,
        throttle_count: tally.throttled,
        status_counts: tally.counts,
        final_service_request_id,
        child_count,
        top_error,
        slow_attempt_ns: if slowest > thresholds.slow_attempt_ns {
            Some(slowest)
        } else {
            None
        },
        high_charge: if charge_exceeds(total, thresholds.request_charge_ru) {
            Some(total)
        } else {
            None
        },
    }
}

/// Throttling is never hidden: the throttle count of a summary is the entry of status 429 in its
/// histogram, and there is such an entry exactly where the count is not zero.
pub proof fn law_throttling_is_never_hidden(
    c: CapturedModel,
    slow_attempt_ns: u64,
    request_charge_ru: u64,
    total: u64,
)
    requires
        c.attempts.len() <= u32::MAX,
    ensures
        ({
            let s = summary_of(c, slow_attempt_ns, request_charge_ru, total);
            &&& s.status_counts.contains_key("429"@) <==> s.throttle_count > 0
            &&& s.throttle_count > 0 ==> s.status_counts["429"@] == s.throttle_count
        }),
{
    let statuses = statuses_of(c.attempts);
    law_histogram_entry(statuses, 429);
    assert(decimal(429) =~= "429"@) by {
        reveal_strlit("429");
        reveal_with_fuel(digits, 4);
    }
}

/// The summary does not grow with the fan-out: of the children, it holds their number alone.
pub proof fn law_summary_holds_only_the_number_of_children(
    a: CapturedModel,
    b: CapturedModel,
    slow_attempt_ns: u64,
    request_charge_ru: u64,
    total: u64,
)
    requires
        a.children.len() == b.children.len(),
        a == (CapturedModel { children: a.children, ..b }),
    ensures
        summary_of(a, slow_attempt_ns, request_charge_ru, total) == summary_of(
            b,
            slow_attempt_ns,
            request_charge_ru,
            total,
        ),
{
}

/// Signals that depend on a threshold are there exactly where the threshold is exceeded.
pub proof fn law_thresholds_decide(
    c: CapturedModel,
    slow_attempt_ns: u64,
    request_charge_ru: u64,
    total: u64,
)
    ensures
        ({
            let s = summary_of(c, slow_attempt_ns, request_charge_ru, total);
            &&& s.slow_attempt_ns is Some <==> exists|i: int|
                0 <= i < c.attempts.len() && (#[trigger] c.attempts[i]).duration_ns
                    > slow_attempt_ns
            &&& s.high_charge is Some <==> exceeds(total, request_charge_ru)
        }),
{
    law_slowest_is_the_maximum(c.attempts);
}

} // verus!
