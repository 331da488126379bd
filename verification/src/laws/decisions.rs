//! When diagnostics are built, in how much detail, and what is kept of the buffers.

use vstd::prelude::*;

use crate::combo2::{escalated, Verbosity};
use crate::combo4;
use crate::driver::gate;
use crate::driver::options::policy_unless_set;
use crate::scenarios::Outcome;

verus! {

/// In threshold mode a failed operation is built whenever the policy captures errors, whatever the
/// latency threshold is and also where there is none. An operation that took longer than the
/// threshold is built whatever its outcome. Nothing else is built.
pub proof fn law_threshold_mode(
    policy: combo4::DiagnosticsPolicy,
    outcome: Outcome,
    total_ns: u64,
)
    requires
        policy.mode == combo4::Mode::Threshold,
    ensures
        policy.capture_on_error && outcome == Outcome::Error ==> policy.builds(outcome, total_ns),
        policy.latency_threshold_ns is None && (outcome == Outcome::Success
            || !policy.capture_on_error) ==> !policy.builds(outcome, total_ns),
        policy.latency_threshold_ns matches Some(t) ==> {
            &&& total_ns > t ==> policy.builds(outcome, total_ns)
            &&& total_ns <= t && outcome == Outcome::Success ==> !policy.builds(outcome, total_ns)
            &&& total_ns <= t && !policy.capture_on_error ==> !policy.builds(outcome, total_ns)
        },
{
}

/// The other two modes do not look at the operation, and how much is built does not depend on
/// whether something is.
pub proof fn law_fixed_modes(
    policy: combo4::DiagnosticsPolicy,
    outcome: Outcome,
    total_ns: u64,
    binary: bool,
)
    ensures
        policy.mode == combo4::Mode::Off ==> !policy.builds(outcome, total_ns),
        policy.mode == combo4::Mode::Always ==> policy.builds(outcome, total_ns),
        policy.builds(outcome, total_ns) == (combo4::DiagnosticsPolicy { binary, ..policy }).builds(
            outcome,
            total_ns,
        ),
{
}

/// In threshold mode the driver builds a failed operation whenever the policy captures errors,
/// whatever the latency threshold is and also where there is none. An operation that took longer
/// than the threshold is built whatever its outcome. Nothing else is built.
pub proof fn law_driver_threshold_mode(
    policy: gate::DiagnosticsPolicy,
    outcome: Outcome,
    total_ns: u64,
)
    requires
        policy.mode == gate::Mode::Threshold,
    ensures
        policy.capture_on_error && outcome == Outcome::Error ==> policy.builds(outcome, total_ns),
        policy.latency_threshold is None && (outcome == Outcome::Success
            || !policy.capture_on_error) ==> !policy.builds(outcome, total_ns),
        policy.latency_threshold matches Some(t) ==> {
            &&& total_ns > t@ ==> policy.builds(outcome, total_ns)
            &&& total_ns <= t@ && outcome == Outcome::Success ==> !policy.builds(outcome, total_ns)
            &&& total_ns <= t@ && !policy.capture_on_error ==> !policy.builds(outcome, total_ns)
        },
{
}

/// The other two modes of the driver do not look at the operation, and how much is built does not
/// depend on whether something is.
pub proof fn law_driver_fixed_modes(
    policy: gate::DiagnosticsPolicy,
    outcome: Outcome,
    total_ns: u64,
    binary: bool,
)
    ensures
        policy.mode == gate::Mode::Off ==> !policy.builds(outcome, total_ns),
        policy.mode == gate::Mode::Always ==> policy.builds(outcome, total_ns),
        policy.builds(outcome, total_ns) == (gate::DiagnosticsPolicy { binary, ..policy }).builds(
            outcome,
            total_ns,
        ),
{
}

/// The two policies decide alike where they say the same.
pub proof fn law_policies_agree(
    own: combo4::DiagnosticsPolicy,
    driver: gate::DiagnosticsPolicy,
    outcome: Outcome,
    total_ns: u64,
)
    requires
        own.mode == combo4::Mode::Off <==> driver.mode == gate::Mode::Off,
        own.mode == combo4::Mode::Always <==> driver.mode == gate::Mode::Always,
        own.capture_on_error == driver.capture_on_error,
        own.latency_threshold_ns is Some <==> driver.latency_threshold is Some,
        own.latency_threshold_ns matches Some(t) ==> driver.latency_threshold->0@ == t,
    ensures
        own.builds(outcome, total_ns) == driver.builds(outcome, total_ns),
{
}

/// A driver that nobody configured builds nothing.
pub proof fn law_unconfigured_drivers_build_nothing(outcome: Outcome, total_ns: u64)
    ensures
        !policy_unless_set().builds(outcome, total_ns),
        policy_unless_set().latency_threshold is None,
        policy_unless_set().capture_on_error,
        !policy_unless_set().binary,
{
}

/// The detail is rendered where it was asked for and where the operation failed, and only there.
pub proof fn law_detail_is_asked_for_or_owed(requested: Verbosity, succeeded: bool)
    ensures
        escalated(requested, succeeded) == Verbosity::Detailed <==> requested
            == Verbosity::Detailed || !succeeded,
        escalated(requested, succeeded) == Verbosity::Summary <==> requested == Verbosity::Summary
            && succeeded,
{
}

/// Renting takes one parked buffer where there is one, and never makes the pool grow.
pub proof fn law_renting_takes_one(parked: nat)
    ensures
        parked > 0 ==> combo4::after_rent(parked) + 1 == parked,
        parked == 0 ==> combo4::after_rent(parked) == 0,
{
}

} // verus!
