//! Deferred capture behind a gate.
//!
//! 1. The hot path appends compact records to a pooled buffer. Nothing is formatted.
//! 2. At the end, when the outcome and the elapsed time are known, a [`DiagnosticsPolicy`] decides
//!    whether diagnostics are worth building. If not, the buffer goes back to the pool.
//! 3. Only past that decision is the log read and rendered: to a summary, and to the `AZD1` blob
//!    where the policy asks for it.

use vstd::prelude::*;
use vstd::string::*;

use crate::clock::MockClock;
use crate::combo2::retained;
use crate::combo2::summary::retries;
use crate::combo4::log::LogModel;
use crate::combo4::parsed::{
    law_log_keeps_the_operation, log_after, logged, parse, parsed_log, Parsed, ParsedAttemptModel,
    ParsedChildModel, ParsedModel,
};
use crate::combo4::preamble::{version_of, PreambleModel};
use crate::laws::summaries::{count_of, counts_statuses, law_gated_summary_tells_the_log};
use crate::laws::times::ends_well;
use crate::scenarios::{
    children_start, drive_sink, opt_text, script_events, scripted_responses, DiagSink, InputModel,
    OperationInput, Outcome, ResponseModel,
};
use crate::spans::{
    attempt_attrs, attempt_node, attempt_nodes, charge_text, child_attrs, child_node, child_nodes,
    closing_attrs, detailed_tree, make_attempt_node, make_child_node, make_root_node,
    opening_attrs, push_attr, root_node,
};
use crate::status::{failure_kind, failure_kind_of};
use crate::tally::{
    first_failure, histogram, law_first_failure_is_the_first, occurrences, tally_statuses,
};
use crate::text::{concatenation, joined};
use crate::text_map::TextMap;
use crate::wire::{
    attrs_view, auto_compresses, decoded, encode_auto, is_encoding, nodes_view, AttrsModel,
    DecodeError, NodeModel, TreeModel, WireNode, WireTree,
};

pub mod log;
pub mod parsed;
pub mod preamble;

pub use crate::combo4::log::{CaptureLog, Combo4Sink, LogPool};
pub use crate::combo4::preamble::Preamble;

verus! {

/// The name of this design in samples and bench rows.
pub const COMBO: &'static str = "combo4";

// ---------------------------------------------------------------------------
// The hot path
// ---------------------------------------------------------------------------

/// The number of parked buffers once one of them is rented.
pub open spec fn after_rent(parked: nat) -> nat {
    if parked == 0 {
        0
    } else {
        (parked - 1) as nat
    }
}

/// Collects diagnostics for `input` into a pooled capture log.
pub fn collect(pool: &mut LogPool, input: &OperationInput, clock: &mut MockClock) -> (log:
    CaptureLog)
    requires
        input@.runs_from(old(clock)@),
    ensures
        final(clock)@ == old(clock)@ + input@.total_ns(),
        final(pool)@ == after_rent(old(pool)@),
        log@ == log_after(script_events(input@, old(clock)@)),
        log@.outcome == input@.outcome(),
        log@.total_ns == input@.total_ns(),
        parsed_log(log@.bytes) == logged(input@, scripted_responses(input@), old(clock)@),
{
    let ghost now = clock@;
    let buf = pool.rent();
    let mut sink = Combo4Sink::new(buf);
    proof {
        assert(sink.model() =~= LogModel::empty());
    }
    drive_sink(input, &mut sink, clock);
    let log = sink.into_log();
    proof {
        law_log_keeps_the_operation(input@, scripted_responses(input@), now);
    }
    log
}

/// Returns the buffer of a capture log to the pool: the path of operations that nobody asks about.
pub fn discard(pool: &mut LogPool, log: CaptureLog)
    ensures
        final(pool)@ == old(pool)@ + 1,
{
    pool.give_back(log.into_buf());
}

// ---------------------------------------------------------------------------
// The decision
// ---------------------------------------------------------------------------

/// How eagerly diagnostics are built.
#[derive(Clone, Copy, Debug, PartialEq, Eq, Structural)]
pub enum Mode {
    /// Never.
    Off,
    /// Only where the operation was slow or failed.
    Threshold,
    /// Always.
    Always,
}

/// The policy by which the end of an operation decides whether to build diagnostics.
#[derive(Clone, Copy, Debug)]
pub struct DiagnosticsPolicy {
    /// How eagerly to build.
    pub mode: Mode,
    /// Build where the operation took longer than this (ns). `None` disables the rule.
    pub latency_threshold_ns: Option<u64>,
    /// Build where the operation failed.
    pub capture_on_error: bool,
    /// Where diagnostics are built, also build the detailed blob.
    pub binary: bool,
}

impl DiagnosticsPolicy {
    /// Whether an operation with this outcome and duration gets diagnostics.
    pub open spec fn builds(self, outcome: Outcome, total_ns: u64) -> bool {
        match self.mode {
            Mode::Off => false,
            Mode::Always => true,
            Mode::Threshold => {
                ||| self.capture_on_error && outcome == Outcome::Error
                ||| self.latency_threshold_ns matches Some(t) && total_ns > t
            },
        }
    }
}

impl Default for DiagnosticsPolicy {
    /// On error, or past five milliseconds; the summary only.
    fn default() -> (policy: Self)
        ensures
            policy == (DiagnosticsPolicy {
                mode: Mode::Threshold,
                latency_threshold_ns: Some(5_000_000),
                capture_on_error: true,
                binary: false,
            }),
    {
        DiagnosticsPolicy {
            mode: Mode::Threshold,
            latency_threshold_ns: Some(5_000_000),
            capture_on_error: true,
            binary: false,
        }
    }
}

/// Evaluates the policy for a log.
pub fn should_build(log: &CaptureLog, policy: &DiagnosticsPolicy) -> (r: bool)
    ensures
        r == policy.builds(log@.outcome, log@.total_ns),
        policy.mode == Mode::Off ==> !r,
        policy.mode == Mode::Always ==> r,
        policy.mode == Mode::Threshold ==> {
            &&& policy.capture_on_error && log@.outcome == Outcome::Error ==> r
            &&& policy.latency_threshold_ns matches Some(t) ==> (log@.total_ns > t ==> r)
            &&& log@.outcome == Outcome::Success && policy.latency_threshold_ns is None ==> !r
            &&& policy.latency_threshold_ns matches Some(t) ==> (log@.total_ns <= t && (
            log@.outcome == Outcome::Success || !policy.capture_on_error) ==> !r)
        },
{
    match policy.mode {
        Mode::Off => false,
        Mode::Always => true,
        Mode::Threshold => {
            let slow: bool = match policy.latency_threshold_ns {
                Some(t) => log.elapsed_ns() > t,
                None => false,
            };
            (policy.capture_on_error && log.outcome() == Outcome::Error) || slow
        },
    }
}

/// Decides on a finished log. Where the policy builds, the log is read; otherwise it is dropped.
/// Either way its buffer goes back to the pool.
pub fn gate(pool: &mut LogPool, log: CaptureLog, policy: &DiagnosticsPolicy) -> (r: Option<Parsed>)
    ensures
        final(pool)@ == old(pool)@ + 1,
        r is Some <==> policy.builds(log@.outcome, log@.total_ns),
        r matches Some(p) ==> p@ == parsed_log(log@.bytes),
{
    let r: Option<Parsed> = if should_build(&log, policy) {
        Some(parse(log.bytes()))
    } else {
        None
    };
    discard(pool, log);
    r
}

/// Collects an operation and applies the policy: `None` where its diagnostics are dropped,
/// else what the log says of it. Either way the buffer goes back to the pool.
pub fn capture_and_gate(
    pool: &mut LogPool,
    input: &OperationInput,
    clock: &mut MockClock,
    policy: &DiagnosticsPolicy,
) -> (r: Option<Parsed>)
    requires
        input@.runs_from(old(clock)@),
    ensures
        final(clock)@ == old(clock)@ + input@.total_ns(),
        final(pool)@ == after_rent(old(pool)@) + 1,
        r is Some <==> policy.builds(input@.outcome(), input@.total_ns() as u64),
        policy.mode == Mode::Off ==> r is None,
        policy.mode == Mode::Always ==> r is Some,
        policy.mode == Mode::Threshold && policy.capture_on_error && !ends_well(input@) ==> r is Some,
        policy.mode == Mode::Threshold && policy.latency_threshold_ns is None && ends_well(input@)
            ==> r is None,
        policy.mode == Mode::Threshold ==> (policy.latency_threshold_ns matches Some(t) ==> (
        final(clock)@ - old(clock)@ > t ==> r is Some)),
        r matches Some(p) ==> p@ == logged(
            input@,
            scripted_responses(input@),
            old(clock)@,
        ),
{
    let log = collect(pool, input, clock);
    gate(pool, log, policy)
}

// ---------------------------------------------------------------------------
// Building
// ---------------------------------------------------------------------------

/// Compact provenance, made of the preamble of the process.
#[derive(Clone, Debug)]
pub struct ClientInfo {
    /// SDK name and version.
    pub sdk_version: String,
    /// Driver version.
    pub driver_version: String,
    /// Full User-Agent.
    pub user_agent: String,
}

/// What a [`ClientInfo`] holds.
#[verifier::ext_equal]
pub struct ClientModel {
    pub sdk_version: Seq<char>,
    pub driver_version: Seq<char>,
    pub user_agent: Seq<char>,
}

impl View for ClientInfo {
    type V = ClientModel;

    open spec fn view(&self) -> ClientModel {
        ClientModel {
            sdk_version: self.sdk_version@,
            driver_version: self.driver_version@,
            user_agent: self.user_agent@,
        }
    }
}

/// The provenance that a preamble gives.
pub open spec fn client_of(p: PreambleModel) -> ClientModel {
    ClientModel {
        sdk_version: concatenation(seq![p.sdk_name, " "@, version_of(p.sdk_ver)]),
        driver_version: version_of(p.driver_ver),
        user_agent: p.agent(),
    }
}

/// Makes the provenance of a preamble.
pub fn client_info(preamble: &Preamble) -> (info: ClientInfo)
    ensures
        info@ == client_of(preamble@),
{
    let version = preamble.sdk_version();
    let parts: Vec<&str> = vec![preamble.sdk_name, " ", version.as_str()];
    proof {
        assert(parts@.map_values(|p: &str| p@) =~= seq![
            preamble@.sdk_name,
            " "@,
            version_of(preamble@.sdk_ver),
        ]);
    }
    ClientInfo {
        sdk_version: joined(&parts),
        driver_version: preamble.driver_version(),
        user_agent: preamble.user_agent(),
    }
}

/// The first error that an operation met.
#[derive(Clone, Debug)]
pub struct TopError {
    /// HTTP status.
    pub status: u16,
    /// Coarse error kind.
    pub error_kind: String,
    /// Service request id of the failing attempt.
    pub service_request_id: String,
}

/// What a [`TopError`] holds.
#[verifier::ext_equal]
pub struct TopErrorModel {
    pub status: u16,
    pub error_kind: Seq<char>,
    pub service_request_id: Seq<char>,
}

impl View for TopError {
    type V = TopErrorModel;

    open spec fn view(&self) -> TopErrorModel {
        TopErrorModel {
            status: self.status,
            error_kind: self.error_kind@,
            service_request_id: self.service_request_id@,
        }
    }
}

/// The summary view, built only where the policy builds.
#[derive(Clone, Debug)]
pub struct Summary {
    /// Operation name.
    pub operation: String,
    /// `success` or `error`.
    pub outcome: &'static str,
    /// Total attempt count.
    pub attempt_count: u32,
    /// Retries: attempts beyond the first.
    pub retry_count: u32,
    /// Total elapsed time (ns).
    pub total_elapsed_ns: u64,
    /// The bit pattern of the charge summed over the attempts.
    pub total_request_charge: u64,
    /// How many attempts were throttled (429).
    pub throttle_count: u32,
    /// How often each status occurred.
    pub status_counts: TextMap<u32>,
    /// Service request id of the final attempt.
    pub final_service_request_id: Option<String>,
    /// Number of fan-out children.
    pub child_count: usize,
    /// The first error, where there was one.
    pub top_error: Option<TopError>,
    /// Client and version provenance.
    pub client: ClientInfo,
}

/// What a [`Summary`] holds.
#[verifier::ext_equal]
pub struct SummaryModel {
    pub operation: Seq<char>,
    pub outcome: Seq<char>,
    pub attempt_count: u32,
    pub retry_count: u32,
    pub total_elapsed_ns: u64,
    pub total_request_charge: u64,
    pub throttle_count: u32,
    pub status_counts: Map<Seq<char>, u32>,
    pub final_service_request_id: Option<Seq<char>>,
    pub child_count: usize,
    pub top_error: Option<TopErrorModel>,
    pub client: ClientModel,
}

/// What an optional top error holds.
pub open spec fn opt_top_error(e: Option<TopError>) -> Option<TopErrorModel> {
    match e {
        Some(t) => Some(t@),
        None => None,
    }
}

impl View for Summary {
    type V = SummaryModel;

    open spec fn view(&self) -> SummaryModel {
        SummaryModel {
            operation: self.operation@,
            outcome: self.outcome@,
            attempt_count: self.attempt_count,
            retry_count: self.retry_count,
            total_elapsed_ns: self.total_elapsed_ns,
            total_request_charge: self.total_request_charge,
            throttle_count: self.throttle_count,
            status_counts: self.status_counts@,
            final_service_request_id: opt_text(self.final_service_request_id),
            child_count: self.child_count,
            top_error: opt_top_error(self.top_error),
            client: self.client@,
        }
    }
}

/// The statuses of attempts, in order.
pub open spec fn statuses_of(attempts: Seq<ParsedAttemptModel>) -> Seq<u16> {
    attempts.map_values(|a: ParsedAttemptModel| a.status)
}

/// The single-precision patterns of the charges of attempts, in order.
pub open spec fn charges_of(attempts: Seq<ParsedAttemptModel>) -> Seq<u32> {
    attempts.map_values(|a: ParsedAttemptModel| a.request_charge)
}

/// The first error among attempts.
pub open spec fn top_error_of(attempts: Seq<ParsedAttemptModel>) -> Option<TopErrorModel> {
    match first_failure(statuses_of(attempts)) {
        Some(i) => Some(
            TopErrorModel {
                status: attempts[i].status,
                error_kind: failure_kind_of(attempts[i].status)->0,
                service_request_id: attempts[i].service_request_id,
            },
        ),
        None => None,
    }
}

/// The summary of an operation whose charges add up to the number with pattern `total`.
pub open spec fn summary_of(p: ParsedModel, total: u64, preamble: PreambleModel) -> SummaryModel {
    SummaryModel {
        operation: p.operation,
        outcome: p.outcome.word(),
        attempt_count: p.attempt_count,
        retry_count: retries(p.attempt_count),
        total_elapsed_ns: p.total_ns,
        total_request_charge: total,
        throttle_count: occurrences(statuses_of(p.attempts), 429) as u32,
        status_counts: histogram(statuses_of(p.attempts)),
        final_service_request_id: if p.attempts.len() == 0 {
            None
        } else {
            Some(p.attempts.last().service_request_id)
        },
        child_count: p.children.len() as usize,
        top_error: top_error_of(p.attempts),
        client: client_of(preamble),
    }
}

/// The statuses of the attempts, in order.
fn attempt_statuses(parsed: &Parsed) -> (statuses: Vec<u16>)
    ensures
        statuses@ == statuses_of(parsed@.attempts),
{
    let mut statuses: Vec<u16> = Vec::new();
    let mut i: usize = 0;
    while i < parsed.attempts.len()
        invariant
            i <= parsed.attempts.len(),
            statuses@.len() == i,
            forall|k: int| 0 <= k < i ==> statuses@[k] == (#[trigger] parsed.attempts@[k]).status,
        decreases parsed.attempts.len() - i,
    {
        statuses.push(parsed.attempts[i].status);
        i = i + 1;
    }
    proof {
        assert(statuses@ =~= statuses_of(parsed@.attempts));
    }
    statuses
}

/// The single-precision patterns of the charges of the attempts, in order. The total charge is
/// their sum in double precision, rounded to four decimals.
pub fn charge_terms(parsed: &Parsed) -> (terms: Vec<u32>)
    ensures
        terms@ == charges_of(parsed@.attempts),
        terms@.len() == parsed.attempts@.len(),
        forall|i: int|
            0 <= i < terms@.len() ==> #[trigger] terms@[i] == parsed.attempts@[i].request_charge,
{
    let mut terms: Vec<u32> = Vec::new();
    let mut i: usize = 0;
    while i < parsed.attempts.len()
        invariant
            i <= parsed.attempts.len(),
            terms@.len() == i,
            forall|k: int|
                0 <= k < i ==> terms@[k] == (#[trigger] parsed.attempts@[k]).request_charge,
        decreases parsed.attempts.len() - i,
    {
        terms.push(parsed.attempts[i].request_charge);
        i = i + 1;
    }
    proof {
        assert(terms@ =~= charges_of(parsed@.attempts));
    }
    terms
}

/// Reduces what a log says to the summary view. `total` is the bit pattern of the total charge.
pub fn summarize(parsed: &Parsed, total: u64, preamble: &Preamble) -> (s: Summary)
    requires
        parsed@.attempts.len() <= u32::MAX,
    ensures
        s@ == summary_of(parsed@, total, preamble@),
        s.operation@ == parsed.operation@,
        s.attempt_count == parsed.attempt_count,
        s.attempt_count > 0 ==> s.retry_count + 1 == s.attempt_count,
        s.attempt_count == 0 ==> s.retry_count == 0,
        s.total_elapsed_ns == parsed.total_ns,
        s.total_request_charge == total,
        s.child_count == parsed.children@.len(),
        ({
            let statuses = parsed@.attempts.map_values(|a: ParsedAttemptModel| a.status);
            s.throttle_count == count_of(statuses, 429) && counts_statuses(
                s.status_counts@,
                statuses,
            )
        }),
{
    let child_count: usize = parsed.children.len();
    proof {
        law_gated_summary_tells_the_log(parsed@, total, preamble@);
    }
    let statuses = attempt_statuses(parsed);
    let tally = tally_statuses(&statuses);
    proof {
        law_first_failure_is_the_first(statuses@);
    }
    let top_error: Option<TopError> = match tally.first_failure {
        Some(i) => {
            let attempt = &parsed.attempts[i];
            proof {
                assert(parsed@.attempts[i as int] == attempt@);
                assert(statuses@[i as int] == attempt.status);
            }
            match failure_kind(attempt.status) {
                Some(kind) => Some(
                    TopError {
                        status: attempt.status,
                        error_kind: kind.to_owned(),
                        service_request_id: attempt.service_request_id.clone(),
                    },
                ),
                None => None,
            }
        },
        None => None,
    };
    let n: usize = parsed.attempts.len();
    let final_service_request_id: Option<String> = if n == 0 {
        None
    } else {
        proof {
            assert(parsed@.attempts.last() == parsed.attempts@[n - 1]@);
        }
        Some(parsed.attempts[n - 1].service_request_id.clone())
    };
    Summary {
        operation: parsed.operation.clone(),
        outcome: parsed.outcome.as_str(),
        attempt_count: parsed.attempt_count,
        retry_count: parsed.attempt_count.saturating_sub(1),
        total_elapsed_ns: parsed.total_ns,
        total_request_charge: total,
        throttle_count: tally.throttled,
        status_counts: tally.counts,
        final_service_request_id,
        child_count,
        top_error,
        client: client_info(preamble),
    }
}

/// Attribute key for the SDK name and version.
pub const ATTR_SDK_VERSION: &'static str = "az.sdk_version";

/// Attribute key for the driver version.
pub const ATTR_DRIVER_VERSION: &'static str = "az.driver_version";

/// Attribute key for the User-Agent.
pub const ATTR_USER_AGENT: &'static str = "az.user_agent";

/// The provenance attributes of a root node.
pub open spec fn client_attrs(c: ClientModel) -> AttrsModel {
    seq![
        (ATTR_SDK_VERSION@, c.sdk_version),
        (ATTR_DRIVER_VERSION@, c.driver_version),
        (ATTR_USER_AGENT@, c.user_agent),
    ]
}

/// The root node of the detailed tree.
pub open spec fn built_root(p: ParsedModel, preamble: PreambleModel) -> NodeModel {
    root_node(
        p.start_ns,
        p.total_ns,
        opening_attrs(p.operation, p.endpoint, p.client_request_id) + closing_attrs(
            p.attempt_count,
            p.outcome,
        ) + client_attrs(client_of(preamble)),
    )
}

/// The node of an attempt in the detailed tree. `charge` is the charge in decimal.
pub open spec fn built_attempt(a: ParsedAttemptModel, charge: Seq<char>) -> NodeModel {
    attempt_node(
        a.start_ns,
        a.duration_ns,
        a.status,
        attempt_attrs(a.index, a.status, Some(a.service_request_id), Some(charge)),
    )
}

/// The nodes of the attempts in the detailed tree.
pub open spec fn built_attempts(
    attempts: Seq<ParsedAttemptModel>,
    charges: Seq<Seq<char>>,
) -> Seq<NodeModel> {
    Seq::new(attempts.len(), |i: int| built_attempt(attempts[i], charges[i]))
}

/// The node of a child in the detailed tree.
pub open spec fn built_child(c: ParsedChildModel) -> NodeModel {
    child_node(c.start_ns, c.duration_ns, child_attrs(c.plan_node_id, c.feed_range))
}

/// The detailed tree: the root with the provenance, then the attempts, then the children.
/// `charges` are the charges of the attempts in decimal.
pub open spec fn built_tree(
    p: ParsedModel,
    charges: Seq<Seq<char>>,
    preamble: PreambleModel,
) -> TreeModel {
    TreeModel {
        operation: p.operation,
        nodes: seq![built_root(p, preamble)] + built_attempts(p.attempts, charges)
            + p.children.map_values(|c: ParsedChildModel| built_child(c)),
    }
}

/// The characters of strings.
pub open spec fn texts_view(texts: Seq<String>) -> Seq<Seq<char>> {
    texts.map_values(|t: String| t@)
}

/// Makes the root node of the detailed tree.
fn make_built_root(parsed: &Parsed, preamble: &Preamble) -> (root: WireNode)
    ensures
        root@ == built_root(parsed@, preamble@),
{
    let info = client_info(preamble);
    let mut root = make_root_node(
        parsed.operation.as_str(),
        parsed.endpoint.as_str(),
        parsed.client_request_id.as_str(),
        parsed.attempt_count,
        parsed.outcome,
        parsed.start_ns,
        parsed.total_ns,
    );
    let ghost before = attrs_view(root.attrs@);
    push_attr(&mut root.attrs, ATTR_SDK_VERSION, info.sdk_version.as_str());
    push_attr(&mut root.attrs, ATTR_DRIVER_VERSION, info.driver_version.as_str());
    push_attr(&mut root.attrs, ATTR_USER_AGENT, info.user_agent.as_str());
    proof {
        assert(attrs_view(root.attrs@) =~= before + client_attrs(client_of(preamble@)));
    }
    root
}

/// Builds the detailed tree. `charges` are the charges of the attempts in decimal.
pub fn build_wiretree(parsed: &Parsed, charges: &Vec<String>, preamble: &Preamble) -> (tree:
    WireTree)
    requires
        charges@.len() == parsed@.attempts.len(),
    ensures
        tree@ == built_tree(parsed@, texts_view(charges@), preamble@),
{
    let ghost root = seq![built_root(parsed@, preamble@)];
    let ghost attempts = built_attempts(parsed@.attempts, texts_view(charges@));
    let ghost children = parsed@.children.map_values(|c: ParsedChildModel| built_child(c));
    let mut nodes: Vec<WireNode> = Vec::new();
    nodes.push(make_built_root(parsed, preamble));
    let mut i: usize = 0;
    proof {
        assert(nodes_view(nodes@) =~= root + attempts.take(0));
    }
    while i < parsed.attempts.len()
        invariant
            i <= parsed.attempts.len(),
            charges@.len() == parsed.attempts.len(),
            attempts == built_attempts(parsed@.attempts, texts_view(charges@)),
            nodes_view(nodes@) == root + attempts.take(i as int),
        decreases parsed.attempts.len() - i,
    {
        let ghost before = nodes@;
        let attempt = &parsed.attempts[i];
        nodes.push(
            make_attempt_node(
                attempt.index,
                attempt.status,
                Some(attempt.service_request_id.as_str()),
                Some(charges[i].as_str()),
                attempt.start_ns,
                attempt.duration_ns,
            ),
        );
        proof {
            assert(parsed@.attempts[i as int] == attempt@);
            assert(nodes_view(nodes@) =~= nodes_view(before).push(attempts[i as int]));
            assert(nodes_view(nodes@) =~= root + attempts.take(i + 1));
        }
        i = i + 1;
    }
    let mut j: usize = 0;
    proof {
        assert(nodes_view(nodes@) =~= root + attempts + children.take(0));
    }
    while j < parsed.children.len()
        invariant
            j <= parsed.children.len(),
            children == parsed@.children.map_values(|c: ParsedChildModel| built_child(c)),
            nodes_view(nodes@) == root + attempts + children.take(j as int),
        decreases parsed.children.len() - j,
    {
        let ghost before = nodes@;
        let child = &parsed.children[j];
        nodes.push(
            make_child_node(
                child.plan_node_id.as_str(),
                child.feed_range.as_str(),
                child.start_ns,
                child.duration_ns,
            ),
        );
        proof {
            assert(nodes_view(nodes@) =~= nodes_view(before).push(children[j as int]));
            assert(nodes_view(nodes@) =~= root + attempts + children.take(j + 1));
        }
        j = j + 1;
    }
    let tree = WireTree { operation: parsed.operation.clone(), nodes };
    proof {
        assert(children.take(j as int) =~= children);
        assert(tree@ =~= built_tree(parsed@, texts_view(charges@), preamble@));
    }
    tree
}

/// Builds the summary view from a capture log. `total` is the bit pattern of the total charge.
pub fn build_summary(log: &CaptureLog, total: u64, preamble: &Preamble) -> (s: Summary)
    requires
        parsed_log(log@.bytes).attempts.len() <= u32::MAX,
    ensures
        s@ == summary_of(parsed_log(log@.bytes), total, preamble@),
        s.attempt_count > 0 ==> s.retry_count + 1 == s.attempt_count,
        s.attempt_count == 0 ==> s.retry_count == 0,
{
    summarize(&parse(log.bytes()), total, preamble)
}

/// Builds the detailed blob from a capture log. `charges` are the charges of the attempts in
/// decimal.
pub fn build_detailed_blob(log: &CaptureLog, charges: &Vec<String>, preamble: &Preamble) -> (blob:
    Vec<u8>)
    requires
        charges@.len() == parsed_log(log@.bytes).attempts.len(),
    ensures
        ({
            let tree = built_tree(parsed_log(log@.bytes), texts_view(charges@), preamble@);
            &&& is_encoding(blob@, tree, auto_compresses(tree))
            &&& decoded(blob@) == Ok::<TreeModel, DecodeError>(tree)
        }),
{
    encode_auto(&build_wiretree(&parse(log.bytes()), charges, preamble))
}

/// The rendered diagnostics of one operation.
#[derive(Clone, Debug)]
pub enum Rendered {
    /// The policy dropped the diagnostics.
    Dropped,
    /// The summary alone.
    Summary {
        /// The summary in compact JSON.
        json: Vec<u8>,
    },
    /// The summary and the full detail.
    Detailed {
        /// The summary in compact JSON.
        json: Vec<u8>,
        /// The full span tree as an `AZD1` blob.
        blob: Vec<u8>,
    },
}

impl Rendered {
    /// The summary JSON, where one was built.
    pub open spec fn json(self) -> Option<Seq<u8>> {
        match self {
            Rendered::Dropped => None,
            Rendered::Summary { json } => Some(json@),
            Rendered::Detailed { json, blob } => Some(json@),
        }
    }

    /// The detailed blob, where one was built.
    pub open spec fn blob(self) -> Option<Seq<u8>> {
        match self {
            Rendered::Detailed { json, blob } => Some(blob@),
            _ => None,
        }
    }

    /// The summary JSON, where one was built.
    pub fn summary_json(&self) -> (bytes: Option<&[u8]>)
        ensures
            match bytes {
                Some(b) => self.json() == Some(b@),
                None => self.json() is None,
            },
    {
        match self {
            Rendered::Dropped => None,
            Rendered::Summary { json } => Some(json.as_slice()),
            Rendered::Detailed { json, .. } => Some(json.as_slice()),
        }
    }

    /// The detailed blob, where one was built.
    pub fn detailed_blob(&self) -> (bytes: Option<&[u8]>)
        ensures
            match bytes {
                Some(b) => self.blob() == Some(b@),
                None => self.blob() is None,
            },
    {
        match self {
            Rendered::Detailed { blob, .. } => Some(blob.as_slice()),
            _ => None,
        }
    }

    /// Whether the policy dropped the diagnostics.
    pub fn is_dropped(&self) -> (r: bool)
        ensures
            r == (self is Dropped),
    {
        match self {
            Rendered::Dropped => true,
            _ => false,
        }
    }
}

/// Renders what the policy let through. `json` is the summary in JSON, and `charges` are the
/// charges of the attempts in decimal.
pub fn render(
    parsed: &Parsed,
    policy: &DiagnosticsPolicy,
    json: Vec<u8>,
    charges: &Vec<String>,
    preamble: &Preamble,
) -> (r: Rendered)
    requires
        policy.binary ==> charges@.len() == parsed@.attempts.len(),
    ensures
        r.json() == Some(json@),
        r.blob() is Some <==> policy.binary,
        r.blob() matches Some(blob) ==> {
            let tree = built_tree(parsed@, texts_view(charges@), preamble@);
            &&& is_encoding(blob, tree, auto_compresses(tree))
            &&& decoded(blob) == Ok::<TreeModel, DecodeError>(tree)
        },
{
    if policy.binary {
        let blob = encode_auto(&build_wiretree(parsed, charges, preamble));
        Rendered::Detailed { json, blob }
    } else {
        Rendered::Summary { json }
    }
}

// ---------------------------------------------------------------------------
// Laws
// ---------------------------------------------------------------------------

/// An operation returns the buffer that it rents, so however many operations run one after the
/// other, the pool keeps the size that the first of them left: one buffer where it was empty.
pub proof fn law_pool_is_reused(parked: nat)
    ensures
        after_rent(parked) + 1 == (if parked == 0 {
            1
        } else {
            parked
        }),
        after_rent(after_rent(parked) + 1) + 1 == after_rent(parked) + 1,
{
}

/// A policy that is off drops everything, and one that is always on drops nothing.
pub proof fn law_off_and_always(policy: DiagnosticsPolicy, outcome: Outcome, total_ns: u64)
    ensures
        policy.mode == Mode::Off ==> !policy.builds(outcome, total_ns),
        policy.mode == Mode::Always ==> policy.builds(outcome, total_ns),
{
}

/// The tree of a captured operation is the detailed tree of the operation with the provenance
/// added to its root, where the responses carried ids and charges and the charges are written
/// alike.
pub proof fn law_built_tree_tells_the_operation(
    input: InputModel,
    responses: Seq<ResponseModel>,
    now: u64,
    charges: Seq<Seq<char>>,
    preamble: PreambleModel,
)
    requires
        responses.len() == input.attempts.len(),
        charges.len() == responses.len(),
        forall|i: int|
            0 <= i < responses.len() ==> (#[trigger] responses[i]).service_request_id is Some
                && charge_text(responses[i]) == Some(charges[i]),
    ensures
        ({
            let built = built_tree(logged(input, responses, now), charges, preamble);
            let told = detailed_tree(input, responses, now);
            let root = told.nodes[0];
            &&& built.operation == told.operation
            &&& built.nodes == told.nodes.update(
                0,
                NodeModel { attrs: root.attrs + client_attrs(client_of(preamble)), ..root },
            )
        }),
{
    let p = logged(input, responses, now);
    let built = built_tree(p, charges, preamble);
    let told = detailed_tree(input, responses, now);
    let root = told.nodes[0];
    let start = children_start(input, now);
    assert(built_attempts(p.attempts, charges) =~= attempt_nodes(
        input,
        responses,
        now,
        input.attempts.len(),
    )) by {
        assert forall|i: int| 0 <= i < input.attempts.len() implies built_attempt(
            #[trigger] p.attempts[i],
            charges[i],
        ) == attempt_nodes(input, responses, now, input.attempts.len())[i] by {
            assert(responses[i].service_request_id is Some);
        }
    }
    assert(p.children.map_values(|c: ParsedChildModel| built_child(c)) =~= child_nodes(
        input,
        start,
        input.children.len(),
    ));
    assert(built.nodes =~= told.nodes.update(
        0,
        NodeModel { attrs: root.attrs + client_attrs(client_of(preamble)), ..root },
    ));
}

/// The summary of a captured operation tells what the tiered design's summary of it tells, where
/// the responses carried ids. The totals, which each design sums for itself, are its own.
pub proof fn law_summaries_agree(
    input: InputModel,
    responses: Seq<ResponseModel>,
    now: u64,
    slow_attempt_ns: u64,
    request_charge_ru: u64,
    tiered_total: u64,
    total: u64,
    preamble: PreambleModel,
)
    requires
        responses.len() == input.attempts.len(),
        forall|i: int|
            0 <= i < responses.len() ==> (#[trigger] responses[i]).service_request_id is Some,
    ensures
        ({
            let gated = summary_of(logged(input, responses, now), total, preamble);
            let tiered = crate::combo2::summary::summary_of(
                retained(input, responses, now),
                slow_attempt_ns,
                request_charge_ru,
                tiered_total,
            );
            &&& gated.operation == tiered.operation
            &&& gated.outcome == tiered.outcome
            &&& gated.attempt_count == tiered.attempt_count
            &&& gated.retry_count == tiered.retry_count
            &&& gated.total_elapsed_ns == tiered.total_elapsed_ns
            &&& gated.throttle_count == tiered.throttle_count
            &&& gated.status_counts == tiered.status_counts
            &&& gated.final_service_request_id == tiered.final_service_request_id
            &&& gated.child_count == tiered.child_count
            &&& gated.top_error is Some <==> tiered.top_error is Some
            &&& gated.top_error matches Some(e) ==> {
                &&& tiered.top_error->0.status == e.status
                &&& tiered.top_error->0.error_kind == e.error_kind
                &&& tiered.top_error->0.service_request_id == Some(e.service_request_id)
            }
        }),
{
    let p = logged(input, responses, now);
    let c = retained(input, responses, now);
    assert(statuses_of(p.attempts) =~= crate::combo2::summary::statuses_of(c.attempts));
    law_first_failure_is_the_first(statuses_of(p.attempts));
    if input.attempts.len() > 0 {
        let last = input.attempts.len() - 1;
        assert(responses[last].service_request_id is Some);
        assert(p.attempts.last() == p.attempts[last]);
        assert(c.attempts.last() == c.attempts[last]);
    }
    match first_failure(statuses_of(p.attempts)) {
        Some(i) => {
            assert(responses[i].service_request_id is Some);
        },
        None => {},
    }
}

} // verus!
