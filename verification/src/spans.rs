//! The spans that an operation is told as: what each kind of node of a detailed tree holds.

use vstd::prelude::*;
use vstd::string::*;

use crate::attrs::{
    ATTR_ATTEMPT_COUNT, ATTR_ATTEMPT_INDEX, ATTR_CLIENT_REQUEST_ID, ATTR_ENDPOINT, ATTR_ERROR_KIND,
    ATTR_FEED_RANGE, ATTR_OPERATION, ATTR_OUTCOME, ATTR_PLAN_NODE_ID, ATTR_REQUEST_CHARGE,
    ATTR_SERVICE_REQUEST_ID, ATTR_STATUS_CODE,
};
use crate::laws::trees::{
    lemma_attempt, lemma_child, lemma_root, tells_attempt, tells_child, tells_operation,
};
use crate::scenarios::{
    children_start, opt_str, scripted_responses, InputModel, Outcome, ResponseModel,
};
use crate::status::{failure_kind, failure_kind_of};
use crate::text::{decimal, decimal_text};
use crate::wire::{attrs_view, AttrsModel, NodeKind, NodeModel, TreeModel, WireNode};

verus! {

/// An attribute that is there only where its value is.
pub open spec fn optional_attr(key: Seq<char>, value: Option<Seq<char>>) -> AttrsModel {
    match value {
        Some(v) => seq![(key, v)],
        None => Seq::empty(),
    }
}

/// The attributes that an operation has from its start.
pub open spec fn opening_attrs(
    operation: Seq<char>,
    endpoint: Seq<char>,
    client_request_id: Seq<char>,
) -> AttrsModel {
    seq![
        (ATTR_OPERATION@, operation),
        (ATTR_ENDPOINT@, endpoint),
        (ATTR_CLIENT_REQUEST_ID@, client_request_id),
    ]
}

/// The attributes that an operation gets at its end.
pub open spec fn closing_attrs(attempt_count: u32, outcome: Outcome) -> AttrsModel {
    seq![
        (ATTR_ATTEMPT_COUNT@, decimal(attempt_count as nat)),
        (ATTR_OUTCOME@, outcome.word()),
    ]
}

/// The attributes of an attempt.
pub open spec fn attempt_attrs(
    index: u32,
    status: u16,
    service_request_id: Option<Seq<char>>,
    request_charge: Option<Seq<char>>,
) -> AttrsModel {
    seq![
        (ATTR_ATTEMPT_INDEX@, decimal(index as nat)),
        (ATTR_STATUS_CODE@, decimal(status as nat)),
    ] + optional_attr(ATTR_SERVICE_REQUEST_ID@, service_request_id) + optional_attr(
        ATTR_REQUEST_CHARGE@,
        request_charge,
    ) + optional_attr(ATTR_ERROR_KIND@, failure_kind_of(status))
}

/// The attributes of a fan-out child.
pub open spec fn child_attrs(plan_node_id: Seq<char>, feed_range: Seq<char>) -> AttrsModel {
    seq![(ATTR_PLAN_NODE_ID@, plan_node_id), (ATTR_FEED_RANGE@, feed_range)]
}

/// The root node of a detailed tree.
pub open spec fn root_node(start_ns: u64, duration_ns: u64, attrs: AttrsModel) -> NodeModel {
    NodeModel {
        parent: None,
        kind: NodeKind::Operation.code(),
        start_ns,
        duration_ns,
        status: 0,
        attrs,
    }
}

/// The node of an attempt in a detailed tree.
pub open spec fn attempt_node(
    start_ns: u64,
    duration_ns: u64,
    status: u16,
    attrs: AttrsModel,
) -> NodeModel {
    NodeModel {
        parent: Some(0),
        kind: NodeKind::Attempt.code(),
        start_ns,
        duration_ns,
        status,
        attrs,
    }
}

/// The node of a fan-out child in a detailed tree.
pub open spec fn child_node(start_ns: u64, duration_ns: u64, attrs: AttrsModel) -> NodeModel {
    NodeModel {
        parent: Some(0),
        kind: NodeKind::Routing.code(),
        start_ns,
        duration_ns,
        status: 0,
        attrs,
    }
}

/// The charge text that a response carries.
pub open spec fn charge_text(r: ResponseModel) -> Option<Seq<char>> {
    match r.request_charge {
        Some(c) => Some(c.text),
        None => None,
    }
}

/// The nodes of the attempts of an operation that starts at `now` and gets these responses.
pub open spec fn attempt_nodes(
    input: InputModel,
    responses: Seq<ResponseModel>,
    now: u64,
    n: nat,
) -> Seq<NodeModel> {
    Seq::new(
        n,
        |i: int|
            attempt_node(
                (now + input.attempts_ns(i as nat)) as u64,
                input.attempts[i].duration_ns,
                responses[i].status,
                attempt_attrs(
                    i as u32,
                    responses[i].status,
                    responses[i].service_request_id,
                    charge_text(responses[i]),
                ),
            ),
    )
}

/// The nodes of the children of an operation whose children start at `now`.
pub open spec fn child_nodes(input: InputModel, now: u64, n: nat) -> Seq<NodeModel> {
    Seq::new(
        n,
        |i: int|
            child_node(
                (now + input.children_ns(i as nat)) as u64,
                input.children[i].duration_ns,
                child_attrs(input.children[i].plan_node_id, input.children[i].feed_range),
            ),
    )
}

/// The detailed tree of an operation that starts at `now` and gets these responses: the root, then
/// the attempts, then the children.
pub open spec fn detailed_tree(
    input: InputModel,
    responses: Seq<ResponseModel>,
    now: u64,
) -> TreeModel {
    TreeModel {
        operation: input.name,
        nodes: seq![
            root_node(
                now,
                input.total_ns() as u64,
                opening_attrs(input.name, input.endpoint, input.client_request_id)
                    + closing_attrs(input.attempts.len() as u32, input.outcome()),
            ),
        ] + attempt_nodes(input, responses, now, input.attempts.len()) + child_nodes(
            input,
            children_start(input, now),
            input.children.len(),
        ),
    }
}

/// The detailed tree of an operation that runs as its script says, from `now`.
pub open spec fn scripted_tree(input: InputModel, now: u64) -> TreeModel {
    detailed_tree(input, scripted_responses(input), now)
}

/// A detailed tree is rooted at its first node, which stands for the operation: it is the only
/// node without a parent and the parent of all others. The attempts follow it, and then the
/// children.
pub proof fn law_detailed_tree_is_rooted(
    input: InputModel,
    responses: Seq<ResponseModel>,
    now: u64,
)
    requires
        responses.len() == input.attempts.len(),
    ensures
        ({
            let nodes = detailed_tree(input, responses, now).nodes;
            let a = input.attempts.len();
            &&& nodes.len() == 1 + a + input.children.len()
            &&& nodes[0].parent is None && nodes[0].kind == NodeKind::Operation.code()
            &&& forall|i: int|
                1 <= i < nodes.len() ==> (#[trigger] nodes[i]).parent == Some(0u32)
            &&& forall|i: int|
                1 <= i <= a ==> (#[trigger] nodes[i]).kind == NodeKind::Attempt.code()
            &&& forall|i: int|
                a < i < nodes.len() ==> (#[trigger] nodes[i]).kind == NodeKind::Routing.code()
        }),
{
}

/// Adds an attribute at the end.
pub fn push_attr(attrs: &mut Vec<(String, String)>, key: &str, value: &str)
    ensures
        attrs_view(final(attrs)@) == attrs_view(old(attrs)@).push((key@, value@)),
{
    let ghost before = attrs@;
    attrs.push((key.to_owned(), value.to_owned()));
    proof {
        assert(attrs_view(attrs@) =~= attrs_view(before).push((key@, value@)));
    }
}

/// Adds an attribute at the end where there is a value.
pub fn push_optional_attr(attrs: &mut Vec<(String, String)>, key: &str, value: Option<&str>)
    ensures
        attrs_view(final(attrs)@) == attrs_view(old(attrs)@) + optional_attr(key@, opt_str(value)),
{
    let ghost before = attrs_view(attrs@);
    if let Some(v) = value {
        push_attr(attrs, key, v);
    }
    proof {
        assert(attrs_view(attrs@) =~= before + optional_attr(key@, opt_str(value)));
    }
}

/// Makes the root node of a detailed tree.
pub fn make_root_node(
    operation: &str,
    endpoint: &str,
    client_request_id: &str,
    attempt_count: u32,
    outcome: Outcome,
    start_ns: u64,
    duration_ns: u64,
) -> (node: WireNode)
    ensures
        node@ == root_node(
            start_ns,
            duration_ns,
            opening_attrs(operation@, endpoint@, client_request_id@) + closing_attrs(
                attempt_count,
                outcome,
            ),
        ),
        tells_operation(
            node@,
            operation@,
            endpoint@,
            client_request_id@,
            attempt_count as nat,
            outcome == Outcome::Success,
            start_ns as int,
            duration_ns as int,
        ),
{
    let mut attrs: Vec<(String, String)> = Vec::new();
    push_attr(&mut attrs, ATTR_OPERATION, operation);
    push_attr(&mut attrs, ATTR_ENDPOINT, endpoint);
    push_attr(&mut attrs, ATTR_CLIENT_REQUEST_ID, client_request_id);
    push_attr(&mut attrs, ATTR_ATTEMPT_COUNT, decimal_text(attempt_count as u64).as_str());
    push_attr(&mut attrs, ATTR_OUTCOME, outcome.as_str());
    proof {
        assert(attrs_view(attrs@) =~= opening_attrs(operation@, endpoint@, client_request_id@)
            + closing_attrs(attempt_count, outcome));
        assert(attrs_view(attrs@) + Seq::<(Seq<char>, Seq<char>)>::empty() =~= attrs_view(attrs@));
        lemma_root(
            operation@,
            endpoint@,
            client_request_id@,
            attempt_count,
            outcome,
            start_ns,
            duration_ns,
            Seq::empty(),
        );
    }
    WireNode {
        parent: None,
        kind: NodeKind::Operation.as_u8(),
        start_ns,
        duration_ns,
        status: 0,
        attrs,
    }
}

/// Makes the node of an attempt in a detailed tree.
pub fn make_attempt_node(
    index: u32,
    status: u16,
    service_request_id: Option<&str>,
    request_charge: Option<&str>,
    start_ns: u64,
    duration_ns: u64,
) -> (node: WireNode)
    ensures
        node@ == attempt_node(
            start_ns,
            duration_ns,
            status,
            attempt_attrs(index, status, opt_str(service_request_id), opt_str(request_charge)),
        ),
        tells_attempt(
            node@,
            index as nat,
            status,
            opt_str(service_request_id),
            opt_str(request_charge),
            start_ns as int,
            duration_ns as int,
        ),
{
    let mut attrs: Vec<(String, String)> = Vec::new();
    push_attr(&mut attrs, ATTR_ATTEMPT_INDEX, decimal_text(index as u64).as_str());
    push_attr(&mut attrs, ATTR_STATUS_CODE, decimal_text(status as u64).as_str());
    proof {
        assert(attrs_view(attrs@) =~= seq![
            (ATTR_ATTEMPT_INDEX@, decimal(index as nat)),
            (ATTR_STATUS_CODE@, decimal(status as nat)),
        ]);
    }
    push_optional_attr(&mut attrs, ATTR_SERVICE_REQUEST_ID, service_request_id);
    push_optional_attr(&mut attrs, ATTR_REQUEST_CHARGE, request_charge);
    push_optional_attr(&mut attrs, ATTR_ERROR_KIND, failure_kind(status));
    proof {
        lemma_attempt(
            index,
            status,
            opt_str(service_request_id),
            opt_str(request_charge),
            start_ns,
            duration_ns,
        );
    }
    WireNode {
        parent: Some(0),
        kind: NodeKind::Attempt.as_u8(),
        start_ns,
        duration_ns,
        status,
        attrs,
    }
}

/// Makes the node of a fan-out child in a detailed tree.
pub fn make_child_node(plan_node_id: &str, feed_range: &str, start_ns: u64, duration_ns: u64) -> (
    node: WireNode)
    ensures
        node@ == child_node(start_ns, duration_ns, child_attrs(plan_node_id@, feed_range@)),
        tells_child(node@, plan_node_id@, feed_range@, start_ns as int, duration_ns as int),
{
    let mut attrs: Vec<(String, String)> = Vec::new();
    push_attr(&mut attrs, ATTR_PLAN_NODE_ID, plan_node_id);
    push_attr(&mut attrs, ATTR_FEED_RANGE, feed_range);
    proof {
        assert(attrs_view(attrs@) =~= child_attrs(plan_node_id@, feed_range@));
        lemma_child(plan_node_id@, feed_range@, start_ns, duration_ns);
    }
    WireNode {
        parent: Some(0),
        kind: NodeKind::Routing.as_u8(),
        start_ns,
        duration_ns,
        status: 0,
        attrs,
    }
}

} // verus!
