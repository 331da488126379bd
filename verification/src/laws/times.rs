//! How long an operation takes, when its parts start, and what a sink is told of it.

use vstd::prelude::*;

use crate::scenarios::{
    operation_events, script_events, AttemptModel, ChildModel, InputModel, Outcome, ResponseModel,
    SinkEvent,
};

verus! {

/// The durations add up to this many nanoseconds.
pub open spec fn sum_of(durations: Seq<u64>) -> int {
    durations.fold_left(0int, |sum: int, d: u64| sum + d)
}

/// How long each attempt of an operation takes.
pub open spec fn attempt_times(input: InputModel) -> Seq<u64> {
    input.attempts.map_values(|a: AttemptModel| a.duration_ns)
}

/// How long each child of an operation takes.
pub open spec fn child_times(input: InputModel) -> Seq<u64> {
    input.children.map_values(|c: ChildModel| c.duration_ns)
}

/// How long an operation takes: all its attempts and all its children.
pub open spec fn time_of(input: InputModel) -> int {
    sum_of(attempt_times(input)) + sum_of(child_times(input))
}

/// When attempt `i` starts: after the attempts before it.
pub open spec fn attempt_start(input: InputModel, now: u64, i: int) -> int {
    now + sum_of(attempt_times(input).take(i))
}

/// When child `i` starts: after all attempts and the children before it.
pub open spec fn child_start(input: InputModel, now: u64, i: int) -> int {
    now + sum_of(attempt_times(input)) + sum_of(child_times(input).take(i))
}

/// The last attempt was answered with a status in the two hundreds.
pub open spec fn ends_well(input: InputModel) -> bool {
    input.attempts.len() > 0 && 200 <= input.attempts[input.attempts.len() - 1].status <= 299
}

/// One more duration adds its length.
pub proof fn lemma_sum_grows(durations: Seq<u64>, i: int)
    requires
        0 <= i < durations.len(),
    ensures
        sum_of(durations.take(i + 1)) == sum_of(durations.take(i)) + durations[i],
{
    assert(durations.take(i + 1).drop_last() =~= durations.take(i));
    assert(durations.take(i + 1).last() == durations[i]);
}

/// Part of the durations is no longer than more of them.
pub proof fn lemma_sum_within(durations: Seq<u64>, i: int, j: int)
    requires
        0 <= i <= j <= durations.len(),
    ensures
        0 <= sum_of(durations.take(i)) <= sum_of(durations.take(j)),
    decreases j,
{
    if j == 0 {
        assert(durations.take(0) =~= Seq::empty());
    } else if i == j {
        lemma_sum_within(durations, i - 1, j - 1);
        lemma_sum_grows(durations, j - 1);
    } else {
        lemma_sum_within(durations, i, j - 1);
        lemma_sum_grows(durations, j - 1);
    }
}

/// The first `n` attempts take what their durations add up to.
proof fn lemma_attempts_ns(input: InputModel, n: nat)
    requires
        n <= input.attempts.len(),
    ensures
        input.attempts_ns(n) == sum_of(attempt_times(input).take(n as int)),
    decreases n,
{
    if n == 0 {
        assert(attempt_times(input).take(0) =~= Seq::empty());
    } else {
        lemma_attempts_ns(input, (n - 1) as nat);
        lemma_sum_grows(attempt_times(input), n - 1);
    }
}

/// The first `n` children take what their durations add up to.
proof fn lemma_children_ns(input: InputModel, n: nat)
    requires
        n <= input.children.len(),
    ensures
        input.children_ns(n) == sum_of(child_times(input).take(n as int)),
    decreases n,
{
    if n == 0 {
        assert(child_times(input).take(0) =~= Seq::empty());
    } else {
        lemma_children_ns(input, (n - 1) as nat);
        lemma_sum_grows(child_times(input), n - 1);
    }
}

/// An operation takes as long as its attempts and its children together, whatever the attempts
/// were answered, and the parts of it up to an attempt or a child take as long as those before.
pub proof fn law_time_adds_up(input: InputModel)
    ensures
        input.total_ns() == time_of(input),
        forall|n: nat|
            n <= input.attempts.len() ==> #[trigger] input.attempts_ns(n) == sum_of(
                attempt_times(input).take(n as int),
            ),
        forall|n: nat|
            n <= input.children.len() ==> #[trigger] input.children_ns(n) == sum_of(
                child_times(input).take(n as int),
            ),
        forall|i: int|
            0 <= i <= input.attempts.len() ==> 0 <= sum_of(#[trigger] attempt_times(input).take(i))
                <= sum_of(attempt_times(input)),
        forall|i: int|
            0 <= i <= input.children.len() ==> 0 <= sum_of(#[trigger] child_times(input).take(i))
                <= sum_of(child_times(input)),
{
    let a = attempt_times(input);
    let c = child_times(input);
    assert(a.take(a.len() as int) =~= a);
    assert(c.take(c.len() as int) =~= c);
    assert forall|n: nat| n <= input.attempts.len() implies #[trigger] input.attempts_ns(n)
        == sum_of(a.take(n as int)) by {
        lemma_attempts_ns(input, n);
    }
    assert forall|n: nat| n <= input.children.len() implies #[trigger] input.children_ns(n)
        == sum_of(c.take(n as int)) by {
        lemma_children_ns(input, n);
    }
    assert forall|i: int| 0 <= i <= input.attempts.len() implies 0 <= sum_of(#[trigger] a.take(i))
        <= sum_of(a) by {
        lemma_sum_within(a, i, a.len() as int);
    }
    assert forall|i: int| 0 <= i <= input.children.len() implies 0 <= sum_of(#[trigger] c.take(i))
        <= sum_of(c) by {
        lemma_sum_within(c, i, c.len() as int);
    }
}

/// An operation can run exactly where the clock can count to its end and its attempts fit their
/// counter.
pub proof fn law_what_can_run(input: InputModel, now: u64)
    ensures
        input.runs_from(now) <==> now + time_of(input) <= 0xFFFF_FFFF_FFFF_FFFF
            && input.attempts.len() <= 0xFFFF_FFFF,
{
    law_time_adds_up(input);
}

/// The last attempt alone decides how an operation ends; one without attempts fails.
pub proof fn law_the_last_attempt_decides(input: InputModel)
    ensures
        input.succeeded() == ends_well(input),
        input.outcome() == Outcome::Success <==> ends_well(input),
        input.outcome() == Outcome::Error <==> !ends_well(input),
{
}

/// The words for the two outcomes.
pub proof fn law_outcome_words()
    ensures
        Outcome::Success.word() == "success"@,
        Outcome::Error.word() == "error"@,
{
}

/// A sink is told of the start, of every attempt in order with what its response carried, of every
/// child in order, and of the end; and of nothing else. Each attempt and child starts when what
/// came before it is over.
pub proof fn law_sinks_are_told_everything(
    input: InputModel,
    responses: Seq<ResponseModel>,
    now: u64,
)
    requires
        responses.len() == input.attempts.len(),
        input.attempts.len() <= 0xFFFF_FFFF,
        input.children.len() <= 0xFFFF_FFFF,
        now + time_of(input) <= 0xFFFF_FFFF_FFFF_FFFF,
    ensures
        ({
            let events = operation_events(input, responses, now);
            let a = input.attempts.len();
            &&& events.len() == a + input.children.len() + 2
            &&& events[0] == (SinkEvent::Start {
                name: input.name,
                endpoint: input.endpoint,
                client_request_id: input.client_request_id,
                start_ns: now,
            })
            &&& forall|i: int|
                #![trigger events[i + 1]]
                0 <= i < a ==> (events[i + 1] matches SinkEvent::Attempt {
                    index,
                    status,
                    service_request_id,
                    request_charge,
                    start_ns,
                    duration_ns,
                } && index == i && status == responses[i].status && service_request_id
                    == responses[i].service_request_id && request_charge
                    == responses[i].request_charge && start_ns == attempt_start(input, now, i)
                    && duration_ns == input.attempts[i].duration_ns)
            &&& forall|i: int|
                #![trigger events[a + i + 1]]
                0 <= i < input.children.len() ==> (events[a + i + 1] matches SinkEvent::Child {
                    index,
                    plan_node_id,
                    feed_range,
                    start_ns,
                    duration_ns,
                } && index == i && plan_node_id == input.children[i].plan_node_id && feed_range
                    == input.children[i].feed_range && start_ns == child_start(input, now, i)
                    && duration_ns == input.children[i].duration_ns)
            &&& events[events.len() - 1] matches SinkEvent::End { outcome, attempt_count, total_ns }
            &&& (outcome == Outcome::Success <==> ends_well(input))
            &&& attempt_count == a
            &&& total_ns == time_of(input)
        }),
{
    law_time_adds_up(input);
    let a = input.attempts.len();
    assert forall|i: int| 0 <= i < a implies attempt_start(input, now, i) == (now
        + input.attempts_ns(i as nat)) as u64 by {
        assert(0 <= sum_of(attempt_times(input).take(i)) <= sum_of(attempt_times(input)));
    }
    assert(attempt_times(input).take(a as int) =~= attempt_times(input));
    assert forall|i: int| 0 <= i < input.children.len() implies child_start(input, now, i) == (now
        + input.attempts_ns(a) + input.children_ns(i as nat)) as u64 by {
        assert(0 <= sum_of(child_times(input).take(i)) <= sum_of(child_times(input)));
    }
    lemma_sum_within(child_times(input), 0, input.children.len() as int);
    assert(child_times(input).take(input.children.len() as int) =~= child_times(input));
}

/// The responses that a script asks for carry the status, the id and the charge of its attempts.
pub proof fn law_scripts_are_answered_as_written(input: InputModel, now: u64)
    ensures
        ({
            let responses = crate::scenarios::scripted_responses(input);
            &&& responses.len() == input.attempts.len()
            &&& forall|i: int|
                0 <= i < responses.len() ==> (#[trigger] responses[i]).status
                    == input.attempts[i].status && responses[i].service_request_id == Some(
                    input.attempts[i].service_request_id,
                ) && responses[i].request_charge == Some(input.attempts[i].request_charge)
            &&& script_events(input, now) == operation_events(input, responses, now)
        }),
{
}

/// A clock starts, and starts over, at its epoch.
pub proof fn law_epoch()
    ensures
        crate::clock::MockClock::EPOCH_NS == 1_700_000_000_000_000_000,
{
}

} // verus!
