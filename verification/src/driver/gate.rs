//! The decision at the end of an operation, and its policy.
//!
//! After an operation completes, a [`DiagnosticsPolicy`] decides whether its diagnostics are worth
//! building. On a fast success the buffer of the log goes back to the pool; on a slow or failed
//! operation the log is read once and reduced to a summary, and to a blob where the policy asks
//! for it.

use vstd::prelude::*;

use crate::combo4::log::{CaptureLog, LogPool};
use crate::combo4::parsed::{parse, parsed_log, Parsed};
use crate::combo4::preamble::Preamble;
use crate::combo4::{
    build_wiretree, built_tree, discard, summarize, summary_of, texts_view, Summary, SummaryModel,
};
use crate::driver::duration::Duration;
use crate::scenarios::Outcome;
use crate::wire::{auto_compresses, decoded, encode_auto, is_encoding, DecodeError, TreeModel};

verus! {

/// The kind of an operation, by which its latency is judged.
#[derive(Clone, Copy, Debug, PartialEq, Eq, Structural)]
pub enum OperationKind {
    /// An operation on one item.
    Point,
    /// A query or another operation over many items.
    NonPoint,
}

/// The latencies past which an operation counts as slow.
#[derive(Clone, Copy, Debug, PartialEq, Eq, Structural)]
pub struct DiagnosticsThresholds {
    point: Option<Duration>,
    non_point: Option<Duration>,
}

impl DiagnosticsThresholds {
    /// The latency threshold of an operation kind.
    pub closed spec fn latency(self, kind: OperationKind) -> Option<Duration> {
        match kind {
            OperationKind::Point => self.point,
            OperationKind::NonPoint => self.non_point,
        }
    }

    /// No thresholds.
    pub fn new() -> (t: Self)
        ensures
            forall|kind: OperationKind| (#[trigger] t.latency(kind)) is None,
    {
        DiagnosticsThresholds { point: None, non_point: None }
    }

    /// Sets the latency threshold of point operations.
    pub fn with_point_operation_latency_threshold(self, threshold: Duration) -> (t: Self)
        ensures
            t.latency(OperationKind::Point) == Some(threshold),
            t.latency(OperationKind::NonPoint) == self.latency(OperationKind::NonPoint),
    {
        DiagnosticsThresholds { point: Some(threshold), non_point: self.non_point }
    }

    /// Sets the latency threshold of other operations.
    pub fn with_non_point_operation_latency_threshold(self, threshold: Duration) -> (t: Self)
        ensures
            t.latency(OperationKind::NonPoint) == Some(threshold),
            t.latency(OperationKind::Point) == self.latency(OperationKind::Point),
    {
        DiagnosticsThresholds { point: self.point, non_point: Some(threshold) }
    }

    /// The latency threshold of point operations.
    pub fn point_operation_latency_threshold(&self) -> (threshold: Option<Duration>)
        ensures
            threshold == self.latency(OperationKind::Point),
    {
        self.point
    }

    /// The latency threshold of other operations.
    pub fn non_point_operation_latency_threshold(&self) -> (threshold: Option<Duration>)
        ensures
            threshold == self.latency(OperationKind::NonPoint),
    {
        self.non_point
    }
}

/// How eagerly diagnostics are built.
#[derive(Clone, Copy, Debug, PartialEq, Eq, Structural)]
pub enum Mode {
    /// Never. Capture is skipped.
    Off,
    /// Only where the operation was slow, or failed and the policy captures errors.
    Threshold,
    /// Always.
    Always,
}

impl Default for Mode {
    fn default() -> (mode: Self)
        ensures
            mode == Mode::Off,
    {
        Mode::Off
    }
}

/// The policy by which the end of an operation decides whether to build diagnostics.
///
/// The default is [`Mode::Off`]: diagnostics are opt-in.
#[derive(Clone, Copy, Debug, PartialEq, Eq, Structural)]
pub struct DiagnosticsPolicy {
    /// How eagerly to build.
    pub mode: Mode,
    /// Build where the operation took longer than this. `None` disables the rule.
    pub latency_threshold: Option<Duration>,
    /// Build where the operation failed.
    pub capture_on_error: bool,
    /// Where diagnostics are built, also build the detailed blob.
    pub binary: bool,
}

impl DiagnosticsPolicy {
    /// Whether an operation with this outcome and duration gets diagnostics.
    pub open spec fn builds(self, outcome: Outcome, total_ns: u64) -> bool {
        match self.mode {
            Mode::Off => false,
            Mode::Always => true,
            Mode::Threshold => {
                ||| self.capture_on_error && outcome == Outcome::Error
                ||| self.latency_threshold matches Some(t) && total_ns > t@
            },
        }
    }

    /// A policy that builds on error, or where an operation takes longer than `latency_threshold`.
    pub fn threshold(latency_threshold: Duration) -> (policy: Self)
        ensures
            policy == (DiagnosticsPolicy {
                mode: Mode::Threshold,
                latency_threshold: Some(latency_threshold),
                capture_on_error: true,
                binary: false,
            }),
    {
        DiagnosticsPolicy {
            mode: Mode::Threshold,
            latency_threshold: Some(latency_threshold),
            capture_on_error: true,
            binary: false,
        }
    }

    /// A policy that always builds the summary.
    pub fn always() -> (policy: Self)
        ensures
            policy == (DiagnosticsPolicy {
                mode: Mode::Always,
                latency_threshold: None,
                capture_on_error: true,
                binary: false,
            }),
    {
        DiagnosticsPolicy {
            mode: Mode::Always,
            latency_threshold: None,
            capture_on_error: true,
            binary: false,
        }
    }

    /// A policy with the threshold of an operation kind. It builds on error too; the caller can
    /// change `mode` and `binary` afterwards.
    pub fn from_thresholds(thresholds: &DiagnosticsThresholds, kind: OperationKind) -> (policy:
        Self)
        ensures
            policy == (DiagnosticsPolicy {
                mode: Mode::Threshold,
                latency_threshold: thresholds.latency(kind),
                capture_on_error: true,
                binary: false,
            }),
    {
        let latency_threshold: Option<Duration> = match kind {
            OperationKind::Point => thresholds.point_operation_latency_threshold(),
            OperationKind::NonPoint => thresholds.non_point_operation_latency_threshold(),
        };
        DiagnosticsPolicy {
            mode: Mode::Threshold,
            latency_threshold,
            capture_on_error: true,
            binary: false,
        }
    }
}

impl Default for DiagnosticsPolicy {
    /// Off: a client that was not configured pays nothing and behaves as before.
    fn default() -> (policy: Self)
        ensures
            policy == (DiagnosticsPolicy {
                mode: Mode::Off,
                latency_threshold: None,
                capture_on_error: true,
                binary: false,
            }),
    {
        DiagnosticsPolicy {
            mode: Mode::Off,
            latency_threshold: None,
            capture_on_error: true,
            binary: false,
        }
    }
}

/// Evaluates the policy for an outcome and an elapsed time.
pub fn should_build(outcome: Outcome, total_ns: u64, policy: &DiagnosticsPolicy) -> (r: bool)
    ensures
        r == policy.builds(outcome, total_ns),
        policy.mode == Mode::Off ==> !r,
        policy.mode == Mode::Always ==> r,
        policy.mode == Mode::Threshold ==> {
            &&& policy.capture_on_error && outcome == Outcome::Error ==> r
            &&& policy.latency_threshold matches Some(t) ==> (total_ns > t@ ==> r)
            &&& outcome == Outcome::Success && policy.latency_threshold is None ==> !r
            &&& policy.latency_threshold matches Some(t) ==> (total_ns <= t@ && (outcome
                == Outcome::Success || !policy.capture_on_error) ==> !r)
        },
{
    match policy.mode {
        Mode::Off => false,
        Mode::Always => true,
        Mode::Threshold => {
            let slow: bool = match policy.latency_threshold {
                Some(t) => total_ns as u128 > t.as_nanos(),
                None => false,
            };
            (policy.capture_on_error && outcome == Outcome::Error) || slow
        },
    }
}

/// The rendered diagnostics of one operation.
#[derive(Clone, Debug)]
pub enum Rendered {
    /// The policy dropped the diagnostics.
    Dropped,
    /// The summary alone.
    Summary {
        /// The summary.
        summary: Box<Summary>,
    },
    /// The summary and the full detail.
    Detailed {
        /// The summary.
        summary: Box<Summary>,
        /// The full span tree as an `AZD1` blob.
        blob: Vec<u8>,
    },
}

impl Rendered {
    /// The summary, where one was built.
    pub open spec fn summary_model(self) -> Option<SummaryModel> {
        match self {
            Rendered::Dropped => None,
            Rendered::Summary { summary } => Some(summary@),
            Rendered::Detailed { summary, blob } => Some(summary@),
        }
    }

    /// The detailed blob, where one was built.
    pub open spec fn blob(self) -> Option<Seq<u8>> {
        match self {
            Rendered::Detailed { summary, blob } => Some(blob@),
            _ => None,
        }
    }

    /// The summary, where one was built.
    pub fn summary(&self) -> (s: Option<&Summary>)
        ensures
            match s {
                Some(v) => self.summary_model() == Some(v@),
                None => self.summary_model() is None,
            },
    {
        match self {
            Rendered::Dropped => None,
            Rendered::Summary { summary } => Some(&**summary),
            Rendered::Detailed { summary, .. } => Some(&**summary),
        }
    }

    /// The detailed blob, where one was built.
    pub fn detailed_blob(&self) -> (bytes: Option<&[u8]>)
        ensures
            match bytes {
                Some(b) => self.blob() == Some(b@),
                None => self.blob() is None,
            },
    {
        match self {
            Rendered::Detailed { blob, .. } => Some(blob.as_slice()),
            _ => None,
        }
    }

    /// Whether the policy dropped the diagnostics.
    pub fn is_dropped(&self) -> (r: bool)
        ensures
            r == (self is Dropped),
    {
        match self {
            Rendered::Dropped => true,
            _ => false,
        }
    }
}

/// Decides on a finished log: `None` where the diagnostics are dropped, else what the
/// log says. Either way its buffer goes back to the pool.
pub fn finish(pool: &mut LogPool, log: CaptureLog, policy: &DiagnosticsPolicy) -> (r: Option<
    Parsed,
>)
    ensures
        final(pool)@ == old(pool)@ + 1,
        r is Some <==> policy.builds(log@.outcome, log@.total_ns),
        r matches Some(p) ==> p@ == parsed_log(log@.bytes),
{
    let r: Option<Parsed> = if should_build(log.outcome(), log.elapsed_ns(), policy) {
        Some(parse(log.bytes()))
    } else {
        None
    };
    discard(pool, log);
    r
}

/// Renders what the policy let through, or that it dropped everything. `total` is the bit pattern
/// of the total charge, and `charges` are the charges of the attempts in decimal.
pub fn render(
    gated: &Option<Parsed>,
    policy: &DiagnosticsPolicy,
    total: u64,
    charges: &Vec<String>,
    preamble: &Preamble,
) -> (r: Rendered)
    requires
        gated matches Some(p) ==> p@.attempts.len() <= u32::MAX,
        gated matches Some(p) ==> (policy.binary ==> charges@.len() == p@.attempts.len()),
    ensures
        match *gated {
            None => r is Dropped,
            Some(p) => {
                &&& r.summary_model() == Some(summary_of(p@, total, preamble@))
                &&& r.blob() is Some <==> policy.binary
                &&& r.blob() matches Some(blob) ==> {
                    let tree = built_tree(p@, texts_view(charges@), preamble@);
                    &&& is_encoding(blob, tree, auto_compresses(tree))
                    &&& decoded(blob) == Ok::<TreeModel, DecodeError>(tree)
                }
            },
        },
{
    match gated {
        None => Rendered::Dropped,
        Some(parsed) => {
            let summary = Box::new(summarize(parsed, total, preamble));
            if policy.binary {
                let blob = encode_auto(&build_wiretree(parsed, charges, preamble));
                Rendered::Detailed { summary, blob }
            } else {
                Rendered::Summary { summary }
            }
        },
    }
}

/// A policy with a threshold never lets a slower operation go where it builds a faster one of the
/// same outcome.
pub proof fn law_slower_is_not_dropped(
    policy: DiagnosticsPolicy,
    outcome: Outcome,
    faster_ns: u64,
    slower_ns: u64,
)
    requires
        faster_ns <= slower_ns,
        policy.builds(outcome, faster_ns),
    ensures
        policy.builds(outcome, slower_ns),
{
}

} // verus!
