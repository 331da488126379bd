//! What the summaries say of an operation, and what their totals are made of.

use vstd::prelude::*;
use vstd::string::*;

use crate::charge::exceeds;
use crate::combo2;
use crate::combo2::model::{AttemptRecModel, CapturedModel};
use crate::combo2::retained;
use crate::combo2::summary::law_slowest_is_the_maximum;
use crate::combo4;
use crate::combo4::parsed::{logged, ParsedAttemptModel, ParsedModel};
use crate::combo4::preamble::PreambleModel;
use crate::laws::times::{
    attempt_times, child_times, ends_well, law_time_adds_up, lemma_sum_within, time_of,
};
use crate::laws::trees::fault_word;
use crate::scenarios::{scripted_responses, AttemptModel, InputModel, Outcome};
use crate::tally::{
    first_failure, histogram, law_first_failure_is_the_first, law_histogram_entry, occurrences,
    tally,
};
use crate::text::decimal;

verus! {

/// How many of the statuses are `status`.
pub open spec fn count_of(statuses: Seq<u16>, status: u16) -> nat {
    statuses.filter(|s: u16| s == status).len()
}

/// The status is not in the two hundreds.
pub open spec fn is_fault(status: u16) -> bool {
    !(200 <= status <= 299)
}

/// `i` is the first of the statuses that is not in the two hundreds.
pub open spec fn is_first_fault(statuses: Seq<u16>, i: int) -> bool {
    &&& 0 <= i < statuses.len()
    &&& is_fault(statuses[i])
    &&& forall|k: int| 0 <= k < i ==> !is_fault(#[trigger] statuses[k])
}

/// The counts are those of the statuses: each status that occurs has its decimal text for a key,
/// with how often it occurs, and there is no other key.
pub open spec fn counts_statuses(counts: Map<Seq<char>, u32>, statuses: Seq<u16>) -> bool {
    &&& forall|status: u16|
        statuses.contains(status) <==> #[trigger] counts.contains_key(decimal(status as nat))
    &&& forall|status: u16|
        statuses.contains(status) ==> #[trigger] counts[decimal(status as nat)] == count_of(
            statuses,
            status,
        )
    &&& forall|key: Seq<char>| #[trigger]
        counts.contains_key(key) ==> exists|i: int|
            0 <= i < statuses.len() && key == decimal(#[trigger] statuses[i] as nat)
}

proof fn lemma_count(statuses: Seq<u16>, status: u16)
    ensures
        occurrences(statuses, status) == count_of(statuses, status),
        count_of(statuses, status) <= statuses.len(),
    decreases statuses.len(),
{
    reveal(Seq::filter);
    if statuses.len() > 0 {
        lemma_count(statuses.drop_last(), status);
    }
}

proof fn lemma_tallied(statuses: Seq<u16>, key: Seq<char>)
    requires
        tally(statuses, key) > 0,
    ensures
        exists|i: int| 0 <= i < statuses.len() && key == decimal(#[trigger] statuses[i] as nat),
    decreases statuses.len(),
{
    let init = statuses.drop_last();
    if decimal(statuses.last() as nat) == key {
        assert(key == decimal(statuses[statuses.len() - 1] as nat));
    } else {
        lemma_tallied(init, key);
        let i = choose|i: int| 0 <= i < init.len() && key == decimal(#[trigger] init[i] as nat);
        assert(key == decimal(statuses[i] as nat));
    }
}

/// A histogram counts the statuses, each under its own key.
pub proof fn law_histogram_counts_statuses(statuses: Seq<u16>)
    requires
        statuses.len() <= 0xFFFF_FFFF,
    ensures
        counts_statuses(histogram(statuses), statuses),
        forall|status: u16| #[trigger] occurrences(statuses, status) == count_of(statuses, status),
{
    assert forall|status: u16| #[trigger] occurrences(statuses, status) == count_of(
        statuses,
        status,
    ) by {
        lemma_count(statuses, status);
    }
    let counts = histogram(statuses);
    assert forall|status: u16|
        statuses.contains(status) <==> #[trigger] counts.contains_key(decimal(status as nat)) by {
        law_histogram_entry(statuses, status);
    }
    assert forall|status: u16| statuses.contains(status) implies #[trigger] counts[decimal(
        status as nat,
    )] == count_of(statuses, status) by {
        law_histogram_entry(statuses, status);
        lemma_count(statuses, status);
    }
    assert forall|key: Seq<char>| #[trigger] counts.contains_key(key) implies exists|i: int|
        0 <= i < statuses.len() && key == decimal(#[trigger] statuses[i] as nat) by {
        lemma_tallied(statuses, key);
    }
}

/// The first failure is the first status that is not in the two hundreds.
proof fn lemma_first_fault(statuses: Seq<u16>)
    ensures
        match first_failure(statuses) {
            Some(i) => is_first_fault(statuses, i),
            None => forall|k: int| 0 <= k < statuses.len() ==> !is_fault(#[trigger] statuses[k]),
        },
{
    law_first_failure_is_the_first(statuses);
}

// ---------------------------------------------------------------------------
// The tiered summary
// ---------------------------------------------------------------------------

/// Attempts are counted, throttled attempts are counted, and all attempts but the first are
/// retries.
pub proof fn law_tiered_summary_counts(
    c: CapturedModel,
    slow_attempt_ns: u64,
    request_charge_ru: u64,
    total: u64,
)
    requires
        c.attempts.len() <= 0xFFFF_FFFF,
        c.children.len() <= usize::MAX,
    ensures
        ({
            let s = combo2::summary::summary_of(c, slow_attempt_ns, request_charge_ru, total);
            let statuses = c.attempts.map_values(|a: AttemptRecModel| a.status);
            &&& s.attempt_count == c.attempt_count
            &&& s.attempt_count > 0 ==> s.retry_count + 1 == s.attempt_count
            &&& s.attempt_count == 0 ==> s.retry_count == 0
            &&& s.throttle_count == count_of(statuses, 429)
            &&& counts_statuses(s.status_counts, statuses)
            &&& s.child_count == c.children.len()
        }),
{
    let statuses = c.attempts.map_values(|a: AttemptRecModel| a.status);
    assert(combo2::summary::statuses_of(c.attempts) =~= statuses);
    law_histogram_counts_statuses(statuses);
    lemma_count(statuses, 429);
}

/// The summary names the operation, says how it ended and how long it took, quotes the id of the
/// last attempt and carries the total that it is given.
pub proof fn law_tiered_summary_tells_the_end(
    c: CapturedModel,
    slow_attempt_ns: u64,
    request_charge_ru: u64,
    total: u64,
)
    ensures
        ({
            let s = combo2::summary::summary_of(c, slow_attempt_ns, request_charge_ru, total);
            &&& s.operation == c.operation
            &&& s.succeeded == c.succeeded
            &&& c.succeeded ==> s.outcome == "success"@
            &&& !c.succeeded ==> s.outcome == "error"@
            &&& s.total_elapsed_ns == c.total_ns
            &&& s.total_request_charge == total
            &&& c.attempts.len() == 0 ==> s.final_service_request_id is None
            &&& c.attempts.len() > 0 ==> s.final_service_request_id == c.attempts[c.attempts.len()
                - 1].service_request_id
        }),
{
}

/// The top error is the first attempt whose status is not in the two hundreds, with its status,
/// the word for it and its id; there is none only where there is no such attempt.
pub proof fn law_tiered_top_error(
    c: CapturedModel,
    slow_attempt_ns: u64,
    request_charge_ru: u64,
    total: u64,
)
    ensures
        ({
            let s = combo2::summary::summary_of(c, slow_attempt_ns, request_charge_ru, total);
            match s.top_error {
                Some(e) => exists|i: int|
                    0 <= i < c.attempts.len() && is_fault((#[trigger] c.attempts[i]).status)
                        && e.status == c.attempts[i].status && Some(e.error_kind) == fault_word(
                        c.attempts[i].status,
                    ) && e.service_request_id == c.attempts[i].service_request_id && (forall|
                        k: int,
                    |
                        0 <= k < i ==> !is_fault((#[trigger] c.attempts[k]).status)),
                None => forall|k: int|
                    0 <= k < c.attempts.len() ==> !is_fault((#[trigger] c.attempts[k]).status),
            }
        }),
{
    let statuses = combo2::summary::statuses_of(c.attempts);
    lemma_first_fault(statuses);
    match first_failure(statuses) {
        Some(i) => {
            assert forall|k: int| 0 <= k < i implies !is_fault(
                (#[trigger] c.attempts[k]).status,
            ) by {
                assert(!is_fault(statuses[k]));
            }
            assert(is_fault(c.attempts[i].status));
        },
        None => {
            assert forall|k: int| 0 <= k < c.attempts.len() implies !is_fault(
                (#[trigger] c.attempts[k]).status,
            ) by {
                assert(!is_fault(statuses[k]));
            }
        },
    }
}

/// A slow attempt is surfaced exactly where an attempt took longer than the threshold, with the
/// duration of the slowest; a high charge exactly where the total exceeds its threshold.
pub proof fn law_tiered_signals(
    c: CapturedModel,
    slow_attempt_ns: u64,
    request_charge_ru: u64,
    total: u64,
)
    ensures
        ({
            let s = combo2::summary::summary_of(c, slow_attempt_ns, request_charge_ru, total);
            &&& match s.slow_attempt_ns {
                Some(d) => d > slow_attempt_ns && (exists|i: int|
                    0 <= i < c.attempts.len() && (#[trigger] c.attempts[i]).duration_ns == d) && (
                forall|i: int|
                    0 <= i < c.attempts.len() ==> (#[trigger] c.attempts[i]).duration_ns <= d),
                None => forall|i: int|
                    0 <= i < c.attempts.len() ==> (#[trigger] c.attempts[i]).duration_ns
                        <= slow_attempt_ns,
            }
            &&& exceeds(total, request_charge_ru) ==> s.high_charge == Some(total)
            &&& !exceeds(total, request_charge_ru) ==> s.high_charge is None
        }),
{
    law_slowest_is_the_maximum(c.attempts);
}

/// Every attempt that carries a charge contributes exactly that charge, whatever it was answered,
/// and in order: the terms of the total are the charges of the attempts that have one.
pub proof fn law_tiered_charges(attempts: Seq<AttemptRecModel>)
    ensures
        combo2::summary::charges_of(attempts) == attempts.filter(
            |a: AttemptRecModel| a.request_charge is Some,
        ).map_values(|a: AttemptRecModel| a.request_charge->0.bits),
        (forall|i: int| 0 <= i < attempts.len() ==> (#[trigger] attempts[i]).request_charge is Some)
            ==> {
            &&& combo2::summary::charges_of(attempts).len() == attempts.len()
            &&& forall|i: int|
                0 <= i < attempts.len() ==> #[trigger] combo2::summary::charges_of(attempts)[i]
                    == attempts[i].request_charge->0.bits
        },
    decreases attempts.len(),
{
    let charged = |a: AttemptRecModel| a.request_charge is Some;
    let bits = |a: AttemptRecModel| a.request_charge->0.bits;
    reveal(Seq::filter);
    if attempts.len() == 0 {
        assert(attempts.filter(charged).map_values(bits) =~= Seq::empty());
    } else {
        let init = attempts.drop_last();
        law_tiered_charges(init);
        if charged(attempts.last()) {
            assert(attempts.filter(charged).map_values(bits) =~= init.filter(charged).map_values(
                bits,
            ).push(bits(attempts.last())));
        }
        if forall|i: int|
            0 <= i < attempts.len() ==> (#[trigger] attempts[i]).request_charge is Some {
            assert forall|i: int| 0 <= i < init.len() implies (
            #[trigger] init[i]).request_charge is Some by {
                assert(init[i] == attempts[i]);
            }
            assert(attempts[attempts.len() - 1].request_charge is Some);
            assert forall|i: int| 0 <= i < attempts.len() implies (
            #[trigger] combo2::summary::charges_of(attempts)[i])
                == attempts[i].request_charge->0.bits by {
                if i < init.len() {
                    assert(combo2::summary::charges_of(init)[i] == init[i].request_charge->0.bits);
                }
            }
        }
    }
}

/// Of a script, the tiered summary says how it ended and how often it was tried, and its total is
/// made of the charges of all attempts, failed ones included.
pub proof fn law_tiered_summary_of_a_script(
    input: InputModel,
    now: u64,
    slow_attempt_ns: u64,
    request_charge_ru: u64,
    total: u64,
)
    requires
        input.attempts.len() <= 0xFFFF_FFFF,
        input.children.len() <= usize::MAX,
        now + time_of(input) <= 0xFFFF_FFFF_FFFF_FFFF,
    ensures
        ({
            let c = retained(input, scripted_responses(input), now);
            let s = combo2::summary::summary_of(c, slow_attempt_ns, request_charge_ru, total);
            let terms = combo2::summary::charges_of(c.attempts);
            let statuses = input.attempts.map_values(|a: AttemptModel| a.status);
            let n = input.attempts.len();
            &&& s.operation == input.name
            &&& s.succeeded == ends_well(input)
            &&& ends_well(input) ==> s.outcome == "success"@
            &&& !ends_well(input) ==> s.outcome == "error"@
            &&& s.attempt_count == n
            &&& s.retry_count == (if n == 0 {
                0
            } else {
                n - 1
            })
            &&& s.total_elapsed_ns == time_of(input)
            &&& s.total_request_charge == total
            &&& s.throttle_count == count_of(statuses, 429)
            &&& counts_statuses(s.status_counts, statuses)
            &&& s.final_service_request_id == (if n == 0 {
                None
            } else {
                Some(input.attempts[n - 1].service_request_id)
            })
            &&& s.child_count == input.children.len()
            &&& match s.top_error {
                Some(e) => exists|i: int|
                    #![trigger statuses[i]]
                    is_first_fault(statuses, i) && e.status == statuses[i] && Some(e.error_kind)
                        == fault_word(statuses[i]) && e.service_request_id == Some(
                        input.attempts[i].service_request_id,
                    ),
                None => forall|i: int| 0 <= i < n ==> !is_fault(#[trigger] statuses[i]),
            }
            &&& terms.len() == n
            &&& forall|i: int|
                0 <= i < n ==> #[trigger] terms[i] == input.attempts[i].request_charge.bits
        }),
{
    let c = retained(input, scripted_responses(input), now);
    let statuses = input.attempts.map_values(|a: AttemptModel| a.status);
    assert(c.attempts.map_values(|a: AttemptRecModel| a.status) =~= statuses);
    law_time_adds_up(input);
    lemma_sum_within(attempt_times(input), 0, input.attempts.len() as int);
    lemma_sum_within(child_times(input), 0, input.children.len() as int);
    assert(attempt_times(input).take(input.attempts.len() as int) =~= attempt_times(input));
    assert(child_times(input).take(input.children.len() as int) =~= child_times(input));
    law_tiered_summary_counts(c, slow_attempt_ns, request_charge_ru, total);
    law_tiered_summary_tells_the_end(c, slow_attempt_ns, request_charge_ru, total);
    law_tiered_top_error(c, slow_attempt_ns, request_charge_ru, total);
    law_tiered_charges(c.attempts);
    let terms = combo2::summary::charges_of(c.attempts);
    assert forall|i: int| 0 <= i < input.attempts.len() implies #[trigger] terms[i]
        == input.attempts[i].request_charge.bits by {
        assert(c.attempts[i].request_charge == Some(input.attempts[i].request_charge));
    }
    let s = combo2::summary::summary_of(c, slow_attempt_ns, request_charge_ru, total);
    match s.top_error {
        Some(e) => {
            let i = choose|i: int|
                0 <= i < c.attempts.len() && is_fault((#[trigger] c.attempts[i]).status)
                    && e.status == c.attempts[i].status && Some(e.error_kind) == fault_word(
                    c.attempts[i].status,
                ) && e.service_request_id == c.attempts[i].service_request_id && (forall|k: int|
                    0 <= k < i ==> !is_fault((#[trigger] c.attempts[k]).status));
            assert forall|k: int| 0 <= k < i implies !is_fault(#[trigger] statuses[k]) by {
                assert(!is_fault(c.attempts[k].status));
            }
            assert(is_first_fault(statuses, i));
        },
        None => {
            assert forall|i: int| 0 <= i < input.attempts.len() implies !is_fault(
                #[trigger] statuses[i],
            ) by {
                assert(!is_fault(c.attempts[i].status));
            }
        },
    }
}

// ---------------------------------------------------------------------------
// The gated summary
// ---------------------------------------------------------------------------

/// What the summary of a log says: counts, retries, the end, the last id, the first error, and
/// where it comes from.
pub proof fn law_gated_summary_tells_the_log(p: ParsedModel, total: u64, preamble: PreambleModel)
    requires
        p.attempts.len() <= 0xFFFF_FFFF,
        p.children.len() <= usize::MAX,
    ensures
        ({
            let s = combo4::summary_of(p, total, preamble);
            let statuses = p.attempts.map_values(|a: ParsedAttemptModel| a.status);
            let n = p.attempts.len();
            &&& s.operation == p.operation
            &&& p.outcome == Outcome::Success ==> s.outcome == "success"@
            &&& p.outcome == Outcome::Error ==> s.outcome == "error"@
            &&& s.attempt_count == p.attempt_count
            &&& s.attempt_count > 0 ==> s.retry_count + 1 == s.attempt_count
            &&& s.attempt_count == 0 ==> s.retry_count == 0
            &&& s.total_elapsed_ns == p.total_ns
            &&& s.total_request_charge == total
            &&& s.throttle_count == count_of(statuses, 429)
            &&& counts_statuses(s.status_counts, statuses)
            &&& n == 0 ==> s.final_service_request_id is None
            &&& n > 0 ==> s.final_service_request_id == Some(p.attempts[n - 1].service_request_id)
            &&& s.child_count == p.children.len()
            &&& match s.top_error {
                Some(e) => exists|i: int|
                    #![trigger statuses[i]]
                    is_first_fault(statuses, i) && e.status == statuses[i] && Some(e.error_kind)
                        == fault_word(statuses[i]) && e.service_request_id
                        == p.attempts[i].service_request_id,
                None => forall|i: int| 0 <= i < n ==> !is_fault(#[trigger] statuses[i]),
            }
        }),
{
    let statuses = p.attempts.map_values(|a: ParsedAttemptModel| a.status);
    assert(combo4::statuses_of(p.attempts) =~= statuses);
    law_histogram_counts_statuses(statuses);
    lemma_count(statuses, 429);
    lemma_first_fault(statuses);
    match first_failure(statuses) {
        Some(i) => {
            assert(is_first_fault(statuses, i) && statuses[i] == p.attempts[i].status);
        },
        None => {},
    }
}

/// Every attempt of a log contributes its charge to the total, whatever it was answered, and in
/// order.
pub proof fn law_gated_charges(attempts: Seq<ParsedAttemptModel>)
    ensures
        combo4::charges_of(attempts).len() == attempts.len(),
        forall|i: int|
            0 <= i < attempts.len() ==> #[trigger] combo4::charges_of(attempts)[i]
                == attempts[i].request_charge,
{
}

/// Of a script, the gated summary says how it ended and how often it was tried, and its total is
/// made of the charges of all attempts, failed ones included.
pub proof fn law_gated_summary_of_a_script(
    input: InputModel,
    now: u64,
    total: u64,
    preamble: PreambleModel,
)
    requires
        input.attempts.len() <= 0xFFFF_FFFF,
        input.children.len() <= usize::MAX,
        now + time_of(input) <= 0xFFFF_FFFF_FFFF_FFFF,
    ensures
        ({
            let p = logged(input, scripted_responses(input), now);
            let s = combo4::summary_of(p, total, preamble);
            let terms = combo4::charges_of(p.attempts);
            let statuses = input.attempts.map_values(|a: AttemptModel| a.status);
            let n = input.attempts.len();
            &&& s.operation == input.name
            &&& ends_well(input) ==> s.outcome == "success"@
            &&& !ends_well(input) ==> s.outcome == "error"@
            &&& s.attempt_count == n
            &&& s.retry_count == (if n == 0 {
                0
            } else {
                n - 1
            })
            &&& s.total_elapsed_ns == time_of(input)
            &&& s.total_request_charge == total
            &&& s.throttle_count == count_of(statuses, 429)
            &&& counts_statuses(s.status_counts, statuses)
            &&& s.final_service_request_id == (if n == 0 {
                None
            } else {
                Some(input.attempts[n - 1].service_request_id)
            })
            &&& s.child_count == input.children.len()
            &&& match s.top_error {
                Some(e) => exists|i: int|
                    #![trigger statuses[i]]
                    is_first_fault(statuses, i) && e.status == statuses[i] && Some(e.error_kind)
                        == fault_word(statuses[i]) && e.service_request_id
                        == input.attempts[i].service_request_id,
                None => forall|i: int| 0 <= i < n ==> !is_fault(#[trigger] statuses[i]),
            }
            &&& terms.len() == n
            &&& forall|i: int|
                0 <= i < n ==> #[trigger] terms[i] == input.attempts[i].request_charge.single
        }),
{
    let p = logged(input, scripted_responses(input), now);
    let statuses = input.attempts.map_values(|a: AttemptModel| a.status);
    assert(p.attempts.map_values(|a: ParsedAttemptModel| a.status) =~= statuses);
    law_time_adds_up(input);
    lemma_sum_within(attempt_times(input), 0, input.attempts.len() as int);
    lemma_sum_within(child_times(input), 0, input.children.len() as int);
    assert(attempt_times(input).take(input.attempts.len() as int) =~= attempt_times(input));
    assert(child_times(input).take(input.children.len() as int) =~= child_times(input));
    law_gated_summary_tells_the_log(p, total, preamble);
    law_gated_charges(p.attempts);
    let s = combo4::summary_of(p, total, preamble);
    match s.top_error {
        Some(e) => {
            let i = choose|i: int|
                #![trigger statuses[i]]
                is_first_fault(statuses, i) && e.status == statuses[i] && Some(e.error_kind)
                    == fault_word(statuses[i]) && e.service_request_id
                    == p.attempts[i].service_request_id;
            assert(p.attempts[i].service_request_id == input.attempts[i].service_request_id);
        },
        None => {},
    }
}

} // verus!
