//! The retained model, and its projection to the shared detailed [`WireTree`].
//!
//! It holds just enough to reduce to a summary cheaply and to expand to the full detailed tree on
//! demand or on error.

use vstd::prelude::*;
use vstd::string::*;

use crate::charge::{Charge, ChargeModel};
use crate::scenarios::{opt_charge, opt_str, opt_text, Outcome};
use crate::spans::{
    attempt_attrs, attempt_node, child_attrs, child_node, closing_attrs, make_attempt_node,
    make_child_node, make_root_node, opening_attrs, root_node,
};
use crate::status::{failure_kind, failure_kind_of, is_success_status, status_succeeds};
use crate::wire::{nodes_view, NodeModel, TreeModel, WireNode, WireTree};

verus! {

/// A recorded HTTP attempt.
#[derive(Clone, Debug)]
pub struct AttemptRec {
    /// Zero-based attempt index.
    pub index: u32,
    /// HTTP status code.
    pub status: u16,
    /// Service request id from the response.
    pub service_request_id: Option<String>,
    /// Request charge.
    pub request_charge: Option<Charge>,
    /// Start tick (ns).
    pub start_ns: u64,
    /// Duration (ns).
    pub duration_ns: u64,
}

/// What an [`AttemptRec`] holds.
#[verifier::ext_equal]
pub struct AttemptRecModel {
    pub index: u32,
    pub status: u16,
    pub service_request_id: Option<Seq<char>>,
    pub request_charge: Option<ChargeModel>,
    pub start_ns: u64,
    pub duration_ns: u64,
}

impl AttemptRecModel {
    /// The decimal text of the charge.
    pub open spec fn charge_text(self) -> Option<Seq<char>> {
        match self.request_charge {
            Some(c) => Some(c.text),
            None => None,
        }
    }

    /// The node of this attempt in the detailed tree.
    pub open spec fn node(self) -> NodeModel {
        attempt_node(
            self.start_ns,
            self.duration_ns,
            self.status,
            attempt_attrs(self.index, self.status, self.service_request_id, self.charge_text()),
        )
    }
}

impl View for AttemptRec {
    type V = AttemptRecModel;

    open spec fn view(&self) -> AttemptRecModel {
        AttemptRecModel {
            index: self.index,
            status: self.status,
            service_request_id: opt_text(self.service_request_id),
            request_charge: opt_charge(self.request_charge),
            start_ns: self.start_ns,
            duration_ns: self.duration_ns,
        }
    }
}

impl AttemptRec {
    /// Whether this attempt succeeded (HTTP 2xx).
    pub fn succeeded(&self) -> (r: bool)
        ensures
            r == is_success_status(self@.status),
    {
        status_succeeds(self.status)
    }

    /// A coarse error kind for attempts that did not succeed.
    pub fn error_kind(&self) -> (kind: Option<&'static str>)
        ensures
            opt_str(kind) == failure_kind_of(self@.status),
    {
        failure_kind(self.status)
    }

    /// The node of this attempt in the detailed tree.
    pub fn to_node(&self) -> (node: WireNode)
        ensures
            node@ == self@.node(),
    {
        let id: Option<&str> = match &self.service_request_id {
            Some(s) => Some(s.as_str()),
            None => None,
        };
        let charge: Option<&str> = match &self.request_charge {
            Some(c) => Some(c.text.as_str()),
            None => None,
        };
        make_attempt_node(self.index, self.status, id, charge, self.start_ns, self.duration_ns)
    }
}

/// A recorded fan-out child span.
#[derive(Clone, Debug)]
pub struct ChildRec {
    /// Query-plan tree node id.
    pub plan_node_id: String,
    /// Feed range that the child addresses.
    pub feed_range: String,
    /// Start tick (ns).
    pub start_ns: u64,
    /// Duration (ns).
    pub duration_ns: u64,
}

/// What a [`ChildRec`] holds.
#[verifier::ext_equal]
pub struct ChildRecModel {
    pub plan_node_id: Seq<char>,
    pub feed_range: Seq<char>,
    pub start_ns: u64,
    pub duration_ns: u64,
}

impl ChildRecModel {
    /// The node of this child in the detailed tree.
    pub open spec fn node(self) -> NodeModel {
        child_node(
            self.start_ns,
            self.duration_ns,
            child_attrs(self.plan_node_id, self.feed_range),
        )
    }
}

impl View for ChildRec {
    type V = ChildRecModel;

    open spec fn view(&self) -> ChildRecModel {
        ChildRecModel {
            plan_node_id: self.plan_node_id@,
            feed_range: self.feed_range@,
            start_ns: self.start_ns,
            duration_ns: self.duration_ns,
        }
    }
}

/// The retained model, filled during the request path.
#[derive(Clone, Debug)]
pub struct Captured {
    /// Operation name.
    pub operation: String,
    /// Service endpoint.
    pub endpoint: String,
    /// Client request id.
    pub client_request_id: String,
    /// Recorded attempts.
    pub attempts: Vec<AttemptRec>,
    /// Recorded fan-out children.
    pub children: Vec<ChildRec>,
    /// Total attempt count.
    pub attempt_count: u32,
    /// Whether the operation ultimately succeeded.
    pub succeeded: bool,
    /// Operation start tick (ns).
    pub start_ns: u64,
    /// Total elapsed (ns).
    pub total_ns: u64,
}

/// What a [`Captured`] holds.
#[verifier::ext_equal]
pub struct CapturedModel {
    pub operation: Seq<char>,
    pub endpoint: Seq<char>,
    pub client_request_id: Seq<char>,
    pub attempts: Seq<AttemptRecModel>,
    pub children: Seq<ChildRecModel>,
    pub attempt_count: u32,
    pub succeeded: bool,
    pub start_ns: u64,
    pub total_ns: u64,
}

/// What a list of recorded attempts holds.
pub open spec fn attempts_view(attempts: Seq<AttemptRec>) -> Seq<AttemptRecModel> {
    Seq::new(attempts.len(), |i: int| attempts[i]@)
}

/// What a list of recorded children holds.
pub open spec fn children_view(children: Seq<ChildRec>) -> Seq<ChildRecModel> {
    Seq::new(children.len(), |i: int| children[i]@)
}

impl View for Captured {
    type V = CapturedModel;

    open spec fn view(&self) -> CapturedModel {
        CapturedModel {
            operation: self.operation@,
            endpoint: self.endpoint@,
            client_request_id: self.client_request_id@,
            attempts: attempts_view(self.attempts@),
            children: children_view(self.children@),
            attempt_count: self.attempt_count,
            succeeded: self.succeeded,
            start_ns: self.start_ns,
            total_ns: self.total_ns,
        }
    }
}

impl CapturedModel {
    /// Nothing recorded yet.
    pub open spec fn empty() -> CapturedModel {
        CapturedModel {
            operation: Seq::empty(),
            endpoint: Seq::empty(),
            client_request_id: Seq::empty(),
            attempts: Seq::empty(),
            children: Seq::empty(),
            attempt_count: 0,
            succeeded: false,
            start_ns: 0,
            total_ns: 0,
        }
    }

    /// How the operation ended.
    pub open spec fn outcome(self) -> Outcome {
        if self.succeeded {
            Outcome::Success
        } else {
            Outcome::Error
        }
    }

    /// The root node of the detailed tree.
    pub open spec fn root(self) -> NodeModel {
        root_node(
            self.start_ns,
            self.total_ns,
            opening_attrs(self.operation, self.endpoint, self.client_request_id) + closing_attrs(
                self.attempt_count,
                self.outcome(),
            ),
        )
    }

    /// The full detailed tree: the root, then the attempts, then the children.
    pub open spec fn tree(self) -> TreeModel {
        TreeModel {
            operation: self.operation,
            nodes: seq![self.root()] + self.attempts.map_values(|a: AttemptRecModel| a.node())
                + self.children.map_values(|c: ChildRecModel| c.node()),
        }
    }
}

impl Default for Captured {
    fn default() -> (c: Self)
        ensures
            c@ == CapturedModel::empty(),
    {
        let c = Captured {
            operation: String::new(),
            endpoint: String::new(),
            client_request_id: String::new(),
            attempts: Vec::new(),
            children: Vec::new(),
            attempt_count: 0,
            succeeded: false,
            start_ns: 0,
            total_ns: 0,
        };
        proof {
            assert(c@ =~= CapturedModel::empty());
        }
        c
    }
}

impl Captured {
    /// How the operation ended.
    pub fn outcome(&self) -> (outcome: Outcome)
        ensures
            outcome == self@.outcome(),
    {
        if self.succeeded {
            Outcome::Success
        } else {
            Outcome::Error
        }
    }

    /// Projects the retained model into the full detailed [`WireTree`].
    pub fn to_wire(&self) -> (tree: WireTree)
        ensures
            tree@ == self@.tree(),
    {
        let ghost attempts = self@.attempts.map_values(|a: AttemptRecModel| a.node());
        let ghost children = self@.children.map_values(|c: ChildRecModel| c.node());
        let ghost root = seq![self@.root()];
        let mut nodes: Vec<WireNode> = Vec::new();
        nodes.push(
            make_root_node(
                self.operation.as_str(),
                self.endpoint.as_str(),
                self.client_request_id.as_str(),
                self.attempt_count,
                self.outcome(),
                self.start_ns,
                self.total_ns,
            ),
        );
        let mut i: usize = 0;
        proof {
            assert(nodes_view(nodes@) =~= root + attempts.take(0));
        }
        while i < self.attempts.len()
            invariant
                i <= self.attempts.len(),
                attempts == self@.attempts.map_values(|a: AttemptRecModel| a.node()),
                nodes_view(nodes@) == root + attempts.take(i as int),
            decreases self.attempts.len() - i,
        {
            let ghost before = nodes@;
            nodes.push(self.attempts[i].to_node());
            proof {
                assert(nodes_view(nodes@) =~= nodes_view(before).push(attempts[i as int]));
                assert(nodes_view(nodes@) =~= root + attempts.take(i + 1));
            }
            i = i + 1;
        }
        let mut j: usize = 0;
        proof {
            assert(nodes_view(nodes@) =~= root + attempts + children.take(0));
        }
        while j < self.children.len()
            invariant
                j <= self.children.len(),
                children == self@.children.map_values(|c: ChildRecModel| c.node()),
                nodes_view(nodes@) == root + attempts + children.take(j as int),
            decreases self.children.len() - j,
        {
            let ghost before = nodes@;
            let child = &self.children[j];
            nodes.push(
                make_child_node(
                    child.plan_node_id.as_str(),
                    child.feed_range.as_str(),
                    child.start_ns,
                    child.duration_ns,
                ),
            );
            proof {
                assert(nodes_view(nodes@) =~= nodes_view(before).push(children[j as int]));
                assert(nodes_view(nodes@) =~= root + attempts + children.take(j + 1));
            }
            j = j + 1;
        }
        let tree = WireTree { operation: self.operation.clone(), nodes };
        proof {
            assert(children.take(j as int) =~= children);
            assert(tree@ =~= self@.tree());
        }
        tree
    }
}

} // verus!
