//! What the detailed trees say of an operation, read by the keys of their attributes.

use vstd::prelude::*;
use vstd::string::*;

use crate::combo1;
use crate::combo1::law_arena_keeps_the_operation;
use crate::combo2::law_retained_tree;
use crate::combo2::model::CapturedModel;
use crate::combo2::retained;
use crate::combo4::parsed::{logged, ParsedModel};
use crate::combo4::preamble::PreambleModel;
use crate::combo4::{built_tree, client_of};
use crate::laws::times::{
    attempt_start, attempt_times, child_start, child_times, ends_well, law_time_adds_up,
    lemma_sum_within, sum_of, time_of,
};
use crate::scenarios::{scripted_responses, InputModel, Outcome, ResponseModel};
use crate::spans::{detailed_tree, scripted_tree};
use crate::text::decimal;
use crate::wire::{attr_value, AttrsModel, NodeKind, NodeModel, TreeModel};

verus! {

/// The attributes say `value` under `key`, and nothing else under it.
pub open spec fn says(attrs: AttrsModel, key: Seq<char>, value: Seq<char>) -> bool {
    &&& exists|k: int| 0 <= k < attrs.len() && (#[trigger] attrs[k]).0 == key && attrs[k].1 == value
    &&& forall|k: int| 0 <= k < attrs.len() && (#[trigger] attrs[k]).0 == key ==> attrs[k].1 == value
}

/// The attributes say nothing under `key`.
pub open spec fn is_silent(attrs: AttrsModel, key: Seq<char>) -> bool {
    forall|k: int| 0 <= k < attrs.len() ==> (#[trigger] attrs[k]).0 != key
}

/// The attributes say the value under `key`, where there is one.
pub open spec fn says_if(attrs: AttrsModel, key: Seq<char>, value: Option<Seq<char>>) -> bool {
    match value {
        Some(v) => says(attrs, key, v),
        None => is_silent(attrs, key),
    }
}

/// The word for what went wrong with a status.
pub open spec fn fault_word(status: u16) -> Option<Seq<char>> {
    if 200 <= status <= 299 {
        None
    } else if status == 429 {
        Some("throttled"@)
    } else if status == 404 {
        Some("not_found"@)
    } else if 400 <= status <= 499 {
        Some("client_error"@)
    } else if 500 <= status <= 599 {
        Some("server_error"@)
    } else {
        Some("unknown"@)
    }
}

/// The node tells an operation: what it was, how often it was tried, how it ended, when it started
/// and how long it took.
pub open spec fn tells_operation(
    node: NodeModel,
    name: Seq<char>,
    endpoint: Seq<char>,
    client_request_id: Seq<char>,
    attempts: nat,
    success: bool,
    start_ns: int,
    duration_ns: int,
) -> bool {
    &&& node.parent is None
    &&& node.kind == 0
    &&& node.status == 0
    &&& node.start_ns == start_ns
    &&& node.duration_ns == duration_ns
    &&& says(node.attrs, "az.operation"@, name)
    &&& says(node.attrs, "az.endpoint"@, endpoint)
    &&& says(node.attrs, "az.client_request_id"@, client_request_id)
    &&& says(node.attrs, "az.attempt_count"@, decimal(attempts))
    &&& says(
        node.attrs,
        "az.outcome"@,
        if success {
            "success"@
        } else {
            "error"@
        },
    )
    &&& node.attrs.len() >= 5
    &&& node.attrs[0].0 == "az.operation"@
    &&& node.attrs[1].0 == "az.endpoint"@
    &&& node.attrs[2].0 == "az.client_request_id"@
    &&& node.attrs[3].0 == "az.attempt_count"@
    &&& node.attrs[4].0 == "az.outcome"@
}

/// The node tells an attempt: which it was, what it was answered, when it started and how long it
/// took.
pub open spec fn tells_attempt(
    node: NodeModel,
    index: nat,
    status: u16,
    id: Option<Seq<char>>,
    charge: Option<Seq<char>>,
    start_ns: int,
    duration_ns: int,
) -> bool {
    &&& node.parent == Some(0u32)
    &&& node.kind == 1
    &&& node.status == status
    &&& node.start_ns == start_ns
    &&& node.duration_ns == duration_ns
    &&& says(node.attrs, "attempt_index"@, decimal(index))
    &&& says(node.attrs, "az.status_code"@, decimal(status as nat))
    &&& says_if(node.attrs, "az.service_request_id"@, id)
    &&& says_if(node.attrs, "az.request_charge"@, charge)
    &&& says_if(node.attrs, "az.error_kind"@, fault_word(status))
    &&& node.attrs.len() == 2 + (if id is Some {
        1int
    } else {
        0
    }) + (if charge is Some {
        1int
    } else {
        0
    }) + (if 200 <= status <= 299 {
        0int
    } else {
        1
    })
    &&& node.attrs[0].0 == "attempt_index"@
    &&& node.attrs[1].0 == "az.status_code"@
    &&& id is Some ==> node.attrs[2].0 == "az.service_request_id"@
    &&& charge is Some ==> node.attrs[if id is Some {
        3
    } else {
        2
    }].0 == "az.request_charge"@
    &&& !(200 <= status <= 299) ==> node.attrs[node.attrs.len() - 1].0 == "az.error_kind"@
}

/// The node tells a fan-out child: its place in the query plan, its feed range, when it started
/// and how long it took.
pub open spec fn tells_child(
    node: NodeModel,
    plan_node_id: Seq<char>,
    feed_range: Seq<char>,
    start_ns: int,
    duration_ns: int,
) -> bool {
    &&& node.parent == Some(0u32)
    &&& node.kind == 3
    &&& node.status == 0
    &&& node.start_ns == start_ns
    &&& node.duration_ns == duration_ns
    &&& node.attrs.len() == 2
    &&& says(node.attrs, "az.plan_node_id"@, plan_node_id)
    &&& says(node.attrs, "az.feed_range"@, feed_range)
    &&& node.attrs[0].0 == "az.plan_node_id"@
    &&& node.attrs[1].0 == "az.feed_range"@
}

/// The keys of attributes differ.
proof fn lemma_keys_differ()
    ensures
        "az.operation"@.len() == 12,
        "az.endpoint"@.len() == 11,
        "az.client_request_id"@.len() == 20,
        "az.attempt_count"@.len() == 16,
        "az.outcome"@.len() == 10,
        "az.sdk_version"@.len() == 14,
        "az.driver_version"@.len() == 17,
        "az.user_agent"@.len() == 13,
        "attempt_index"@.len() == 13,
        "az.status_code"@.len() == 14,
        "az.service_request_id"@.len() == 21,
        "az.request_charge"@.len() == 17,
        "az.error_kind"@.len() == 13,
        "attempt_index"@ != "az.error_kind"@,
        "az.plan_node_id"@.len() == 15,
        "az.feed_range"@.len() == 13,
{
    reveal_strlit("az.operation");
    reveal_strlit("az.endpoint");
    reveal_strlit("az.client_request_id");
    reveal_strlit("az.attempt_count");
    reveal_strlit("az.outcome");
    reveal_strlit("az.sdk_version");
    reveal_strlit("az.driver_version");
    reveal_strlit("az.user_agent");
    reveal_strlit("attempt_index");
    reveal_strlit("az.status_code");
    reveal_strlit("az.service_request_id");
    reveal_strlit("az.request_charge");
    reveal_strlit("az.error_kind");
    reveal_strlit("az.plan_node_id");
    reveal_strlit("az.feed_range");
    assert("attempt_index"@[1] != "az.error_kind"@[1]);
}

/// What an attribute list says under the key of one of its attributes, where no other has that
/// key.
proof fn lemma_says(attrs: AttrsModel, k: int)
    requires
        0 <= k < attrs.len(),
        forall|j: int| 0 <= j < attrs.len() && j != k ==> (#[trigger] attrs[j]).0 != attrs[k].0,
    ensures
        says(attrs, attrs[k].0, attrs[k].1),
{
}

/// A lookup finds the first attribute with the key, and finds nothing only where none has it.
pub proof fn law_lookup_finds_the_first(attrs: AttrsModel, key: Seq<char>)
    ensures
        attr_value(attrs, key) is None <==> is_silent(attrs, key),
        attr_value(attrs, key) matches Some(v) ==> exists|k: int|
            0 <= k < attrs.len() && (#[trigger] attrs[k]).0 == key && attrs[k].1 == v && (forall|
                j: int,
            |
                0 <= j < k ==> (#[trigger] attrs[j]).0 != key),
    decreases attrs.len(),
{
    if attrs.len() > 0 && attrs[0].0 != key {
        let rest = attrs.drop_first();
        law_lookup_finds_the_first(rest, key);
        assert forall|j: int| 0 <= j < rest.len() implies #[trigger] rest[j] == attrs[j + 1] by {}
        if attr_value(rest, key) is Some {
            let v = attr_value(rest, key)->0;
            let k = choose|k: int|
                0 <= k < rest.len() && (#[trigger] rest[k]).0 == key && rest[k].1 == v && (forall|
                    j: int,
                |
                    0 <= j < k ==> (#[trigger] rest[j]).0 != key);
            assert forall|j: int| 0 <= j < k + 1 implies (#[trigger] attrs[j]).0 != key by {
                if j > 0 {
                    assert(rest[j - 1] == attrs[j]);
                }
            }
            assert(attrs[k + 1].0 == key);
        } else {
            assert forall|j: int| 0 <= j < attrs.len() implies (#[trigger] attrs[j]).0 != key by {
                if j > 0 {
                    assert(rest[j - 1] == attrs[j]);
                }
            }
        }
    } else if attrs.len() > 0 {
        assert(attrs[0].0 == key);
    }
}

/// What attributes say under a key is what a lookup gives.
pub proof fn law_what_is_said_is_found(attrs: AttrsModel, key: Seq<char>, value: Seq<char>)
    requires
        says(attrs, key, value),
    ensures
        attr_value(attrs, key) == Some(value),
{
    law_lookup_finds_the_first(attrs, key);
}

/// The bytes for the kinds of spans.
pub proof fn law_codes_of_kinds()
    ensures
        NodeKind::Operation.code() == 0,
        NodeKind::Attempt.code() == 1,
        NodeKind::Transport.code() == 2,
        NodeKind::Routing.code() == 3,
        NodeKind::Query.code() == 4,
        forall|code: u8| code > 4 ==> #[trigger] NodeKind::of_code(code) == NodeKind::Operation,
{
}

/// What the root node of a detailed tree says.
pub proof fn lemma_root(
    name: Seq<char>,
    endpoint: Seq<char>,
    client_request_id: Seq<char>,
    attempts: u32,
    outcome: Outcome,
    start_ns: u64,
    duration_ns: u64,
    more: AttrsModel,
)
    requires
        more.len() == 0 || more.len() == 3 && more[0].0 == "az.sdk_version"@ && more[1].0
            == "az.driver_version"@ && more[2].0 == "az.user_agent"@,
    ensures
        ({
            let node = crate::spans::root_node(
                start_ns,
                duration_ns,
                crate::spans::opening_attrs(name, endpoint, client_request_id)
                    + crate::spans::closing_attrs(attempts, outcome) + more,
            );
            &&& tells_operation(
                node,
                name,
                endpoint,
                client_request_id,
                attempts as nat,
                outcome == Outcome::Success,
                start_ns as int,
                duration_ns as int,
            )
            &&& node.attrs.len() == 5 + more.len()
            &&& more.len() == 3 ==> says(node.attrs, "az.sdk_version"@, more[0].1) && says(
                node.attrs,
                "az.driver_version"@,
                more[1].1,
            ) && says(node.attrs, "az.user_agent"@, more[2].1)
        }),
{
    lemma_keys_differ();
    let attrs = crate::spans::opening_attrs(name, endpoint, client_request_id)
        + crate::spans::closing_attrs(attempts, outcome) + more;
    assert(attrs[0] == ("az.operation"@, name));
    assert(attrs[1] == ("az.endpoint"@, endpoint));
    assert(attrs[2] == ("az.client_request_id"@, client_request_id));
    assert(attrs[3] == ("az.attempt_count"@, decimal(attempts as nat)));
    assert(attrs[4].0 == "az.outcome"@);
    if more.len() == 3 {
        assert(attrs[5] == more[0]);
        assert(attrs[6] == more[1]);
        assert(attrs[7] == more[2]);
        lemma_says(attrs, 5);
        lemma_says(attrs, 6);
        lemma_says(attrs, 7);
    }
    lemma_says(attrs, 0);
    lemma_says(attrs, 1);
    lemma_says(attrs, 2);
    lemma_says(attrs, 3);
    lemma_says(attrs, 4);
}

/// What the node of an attempt says.
pub proof fn lemma_attempt(
    index: u32,
    status: u16,
    id: Option<Seq<char>>,
    charge: Option<Seq<char>>,
    start_ns: u64,
    duration_ns: u64,
)
    ensures
        tells_attempt(
            crate::spans::attempt_node(
                start_ns,
                duration_ns,
                status,
                crate::spans::attempt_attrs(index, status, id, charge),
            ),
            index as nat,
            status,
            id,
            charge,
            start_ns as int,
            duration_ns as int,
        ),
{
    lemma_keys_differ();
    let attrs = crate::spans::attempt_attrs(index, status, id, charge);
    let c = if id is Some {
        3int
    } else {
        2
    };
    let e = if charge is Some {
        c + 1
    } else {
        c
    };
    assert(attrs[0] == ("attempt_index"@, decimal(index as nat)));
    assert(attrs[1] == ("az.status_code"@, decimal(status as nat)));
    if id is Some {
        assert(attrs[2] == ("az.service_request_id"@, id->0));
    }
    if charge is Some {
        assert(attrs[c] == ("az.request_charge"@, charge->0));
    }
    if fault_word(status) is Some {
        assert(attrs[e] == ("az.error_kind"@, fault_word(status)->0));
    }
    lemma_says(attrs, 0);
    lemma_says(attrs, 1);
    if id is Some {
        lemma_says(attrs, 2);
    }
    if charge is Some {
        lemma_says(attrs, c);
    }
    if fault_word(status) is Some {
        lemma_says(attrs, e);
    }
}

/// What the node of a child says.
pub proof fn lemma_child(
    plan_node_id: Seq<char>,
    feed_range: Seq<char>,
    start_ns: u64,
    duration_ns: u64,
)
    ensures
        tells_child(
            crate::spans::child_node(
                start_ns,
                duration_ns,
                crate::spans::child_attrs(plan_node_id, feed_range),
            ),
            plan_node_id,
            feed_range,
            start_ns as int,
            duration_ns as int,
        ),
{
    lemma_keys_differ();
    let attrs = crate::spans::child_attrs(plan_node_id, feed_range);
    assert(attrs[0] == ("az.plan_node_id"@, plan_node_id));
    assert(attrs[1] == ("az.feed_range"@, feed_range));
    lemma_says(attrs, 0);
    lemma_says(attrs, 1);
}

/// The tree tells an operation that starts at `now` and whose attempts get these responses: first
/// the operation, then the attempts in order, then the children in order, and nothing else.
pub open spec fn tells_run(
    tree: TreeModel,
    input: InputModel,
    responses: Seq<ResponseModel>,
    now: u64,
) -> bool {
    let a = input.attempts.len();
    &&& tree.operation == input.name
    &&& tree.nodes.len() == 1 + a + input.children.len()
    &&& tells_operation(
        tree.nodes[0],
        input.name,
        input.endpoint,
        input.client_request_id,
        a,
        ends_well(input),
        now as int,
        time_of(input),
    )
    &&& forall|i: int|
        0 <= i < a ==> tells_attempt(
            #[trigger] tree.nodes[1 + i],
            i as nat,
            responses[i].status,
            responses[i].service_request_id,
            match responses[i].request_charge {
                Some(c) => Some(c.text),
                None => None,
            },
            attempt_start(input, now, i),
            input.attempts[i].duration_ns as int,
        )
    &&& forall|i: int|
        0 <= i < input.children.len() ==> tells_child(
            #[trigger] tree.nodes[1 + a + i],
            input.children[i].plan_node_id,
            input.children[i].feed_range,
            child_start(input, now, i),
            input.children[i].duration_ns as int,
        )
}

/// The tree tells an operation that runs as its script says, from `now`.
pub open spec fn tells_script(tree: TreeModel, input: InputModel, now: u64) -> bool {
    let a = input.attempts.len();
    &&& tree.operation == input.name
    &&& tree.nodes.len() == 1 + a + input.children.len()
    &&& tells_operation(
        tree.nodes[0],
        input.name,
        input.endpoint,
        input.client_request_id,
        a,
        ends_well(input),
        now as int,
        time_of(input),
    )
    &&& forall|i: int|
        0 <= i < a ==> tells_attempt(
            #[trigger] tree.nodes[1 + i],
            i as nat,
            input.attempts[i].status,
            Some(input.attempts[i].service_request_id),
            Some(input.attempts[i].request_charge.text),
            attempt_start(input, now, i),
            input.attempts[i].duration_ns as int,
        )
    &&& forall|i: int|
        0 <= i < input.children.len() ==> tells_child(
            #[trigger] tree.nodes[1 + a + i],
            input.children[i].plan_node_id,
            input.children[i].feed_range,
            child_start(input, now, i),
            input.children[i].duration_ns as int,
        )
}

/// The parts of an operation start when the clock can still count.
proof fn lemma_starts(input: InputModel, now: u64)
    requires
        now + time_of(input) <= 0xFFFF_FFFF_FFFF_FFFF,
    ensures
        forall|i: int|
            0 <= i < input.attempts.len() ==> #[trigger] attempt_start(input, now, i) == (now
                + input.attempts_ns(i as nat)) as u64,
        crate::scenarios::children_start(input, now) == now + input.attempts_ns(
            input.attempts.len(),
        ),
        forall|i: int|
            0 <= i < input.children.len() ==> #[trigger] child_start(input, now, i) == (
            crate::scenarios::children_start(input, now) + input.children_ns(i as nat)) as u64,
        input.total_ns() as u64 == time_of(input),
{
    law_time_adds_up(input);
    let a = attempt_times(input);
    let c = child_times(input);
    let n = input.attempts.len();
    assert(a.take(n as int) =~= a);
    assert(c.take(input.children.len() as int) =~= c);
    lemma_sum_within(a, 0, n as int);
    lemma_sum_within(c, 0, input.children.len() as int);
    assert forall|i: int| 0 <= i < n implies #[trigger] attempt_start(input, now, i) == (now
        + input.attempts_ns(i as nat)) as u64 by {
        assert(0 <= sum_of(a.take(i)) <= sum_of(a));
    }
    assert forall|i: int| 0 <= i < input.children.len() implies #[trigger] child_start(
        input,
        now,
        i,
    ) == (crate::scenarios::children_start(input, now) + input.children_ns(i as nat)) as u64 by {
        assert(0 <= sum_of(c.take(i)) <= sum_of(c));
    }
}

/// The detailed tree of an operation tells the operation.
pub proof fn law_tree_tells_the_run(
    input: InputModel,
    responses: Seq<ResponseModel>,
    now: u64,
)
    requires
        responses.len() == input.attempts.len(),
        input.attempts.len() <= 0xFFFF_FFFF,
        now + time_of(input) <= 0xFFFF_FFFF_FFFF_FFFF,
    ensures
        tells_run(detailed_tree(input, responses, now), input, responses, now),
        detailed_tree(input, responses, now).nodes[0].attrs.len() == 5,
{
    let tree = detailed_tree(input, responses, now);
    let a = input.attempts.len();
    lemma_starts(input, now);
    lemma_root(
        input.name,
        input.endpoint,
        input.client_request_id,
        a as u32,
        input.outcome(),
        now,
        input.total_ns() as u64,
        Seq::empty(),
    );
    let attrs = crate::spans::opening_attrs(input.name, input.endpoint, input.client_request_id)
        + crate::spans::closing_attrs(a as u32, input.outcome());
    assert(attrs + Seq::<(Seq<char>, Seq<char>)>::empty() =~= attrs);
    assert forall|i: int| 0 <= i < a implies tells_attempt(
        #[trigger] tree.nodes[1 + i],
        i as nat,
        responses[i].status,
        responses[i].service_request_id,
        match responses[i].request_charge {
            Some(c) => Some(c.text),
            None => None,
        },
        attempt_start(input, now, i),
        input.attempts[i].duration_ns as int,
    ) by {
        lemma_attempt(
            i as u32,
            responses[i].status,
            responses[i].service_request_id,
            crate::spans::charge_text(responses[i]),
            attempt_start(input, now, i) as u64,
            input.attempts[i].duration_ns,
        );
    }
    assert forall|i: int| 0 <= i < input.children.len() implies tells_child(
        #[trigger] tree.nodes[1 + a + i],
        input.children[i].plan_node_id,
        input.children[i].feed_range,
        child_start(input, now, i),
        input.children[i].duration_ns as int,
    ) by {
        lemma_child(
            input.children[i].plan_node_id,
            input.children[i].feed_range,
            child_start(input, now, i) as u64,
            input.children[i].duration_ns,
        );
    }
}

/// What is collected of a script, in the arena and in the retained model, projects to a tree that
/// tells the script: every attempt with its status, id and charge, and every child with its plan
/// node and its feed range, each under its own key.
pub proof fn law_trees_tell_the_script(input: InputModel, now: u64)
    requires
        input.attempts.len() + input.children.len() <= 0xFFFF_FFFF,
        now + time_of(input) <= 0xFFFF_FFFF_FFFF_FFFF,
    ensures
        tells_script(scripted_tree(input, now), input, now),
        tells_script(combo1::collected(input, now).wire(), input, now),
        tells_script(retained(input, scripted_responses(input), now).tree(), input, now),
        combo1::collected(input, now).success == ends_well(input),
        scripted_tree(input, now).nodes[0].attrs.len() == 5,
        combo1::collected(input, now).wire().nodes[0].attrs.len() == 5,
        retained(input, scripted_responses(input), now).tree().nodes[0].attrs.len() == 5,
{
    let responses = scripted_responses(input);
    law_tree_tells_the_run(input, responses, now);
    law_arena_keeps_the_operation(input, responses, now);
    law_retained_tree(input, responses, now);
    let tree = scripted_tree(input, now);
    let a = input.attempts.len();
    assert forall|i: int| 0 <= i < a implies tells_attempt(
        #[trigger] tree.nodes[1 + i],
        i as nat,
        input.attempts[i].status,
        Some(input.attempts[i].service_request_id),
        Some(input.attempts[i].request_charge.text),
        attempt_start(input, now, i),
        input.attempts[i].duration_ns as int,
    ) by {
        assert(responses[i].status == input.attempts[i].status);
    }
}

/// The detailed tree of a retained model tells the model, whatever was recorded in it.
pub proof fn law_retained_tree_tells_the_model(c: CapturedModel)
    ensures
        ({
            let tree = c.tree();
            let a = c.attempts.len();
            &&& tree.operation == c.operation
            &&& tree.nodes.len() == 1 + a + c.children.len()
            &&& tells_operation(
                tree.nodes[0],
                c.operation,
                c.endpoint,
                c.client_request_id,
                c.attempt_count as nat,
                c.succeeded,
                c.start_ns as int,
                c.total_ns as int,
            )
            &&& tree.nodes[0].attrs.len() == 5
            &&& forall|i: int|
                0 <= i < a ==> tells_attempt(
                    #[trigger] tree.nodes[1 + i],
                    c.attempts[i].index as nat,
                    c.attempts[i].status,
                    c.attempts[i].service_request_id,
                    match c.attempts[i].request_charge {
                        Some(v) => Some(v.text),
                        None => None,
                    },
                    c.attempts[i].start_ns as int,
                    c.attempts[i].duration_ns as int,
                )
            &&& forall|i: int|
                0 <= i < c.children.len() ==> tells_child(
                    #[trigger] tree.nodes[1 + a + i],
                    c.children[i].plan_node_id,
                    c.children[i].feed_range,
                    c.children[i].start_ns as int,
                    c.children[i].duration_ns as int,
                )
        }),
{
    let tree = c.tree();
    let a = c.attempts.len();
    lemma_root(
        c.operation,
        c.endpoint,
        c.client_request_id,
        c.attempt_count,
        c.outcome(),
        c.start_ns,
        c.total_ns,
        Seq::empty(),
    );
    let attrs = crate::spans::opening_attrs(c.operation, c.endpoint, c.client_request_id)
        + crate::spans::closing_attrs(c.attempt_count, c.outcome());
    assert(attrs + Seq::<(Seq<char>, Seq<char>)>::empty() =~= attrs);
    assert forall|i: int| 0 <= i < a implies tells_attempt(
        #[trigger] tree.nodes[1 + i],
        c.attempts[i].index as nat,
        c.attempts[i].status,
        c.attempts[i].service_request_id,
        match c.attempts[i].request_charge {
            Some(v) => Some(v.text),
            None => None,
        },
        c.attempts[i].start_ns as int,
        c.attempts[i].duration_ns as int,
    ) by {
        assert(tree.nodes[1 + i] == c.attempts[i].node());
        lemma_attempt(
            c.attempts[i].index,
            c.attempts[i].status,
            c.attempts[i].service_request_id,
            c.attempts[i].charge_text(),
            c.attempts[i].start_ns,
            c.attempts[i].duration_ns,
        );
    }
    assert forall|i: int| 0 <= i < c.children.len() implies tells_child(
        #[trigger] tree.nodes[1 + a + i],
        c.children[i].plan_node_id,
        c.children[i].feed_range,
        c.children[i].start_ns as int,
        c.children[i].duration_ns as int,
    ) by {
        assert(tree.nodes[1 + a + i] == c.children[i].node());
        lemma_child(
            c.children[i].plan_node_id,
            c.children[i].feed_range,
            c.children[i].start_ns,
            c.children[i].duration_ns,
        );
    }
}

/// The detailed tree that is built of a log tells what the log says, with the charges as they are
/// handed in, and its root says where it comes from.
pub proof fn law_built_tree_tells_the_log(
    p: ParsedModel,
    charges: Seq<Seq<char>>,
    preamble: PreambleModel,
)
    requires
        charges.len() == p.attempts.len(),
    ensures
        ({
            let tree = built_tree(p, charges, preamble);
            let a = p.attempts.len();
            &&& tree.operation == p.operation
            &&& tree.nodes.len() == 1 + a + p.children.len()
            &&& tells_operation(
                tree.nodes[0],
                p.operation,
                p.endpoint,
                p.client_request_id,
                p.attempt_count as nat,
                p.outcome == Outcome::Success,
                p.start_ns as int,
                p.total_ns as int,
            )
            &&& tree.nodes[0].attrs.len() == 8
            &&& tree.nodes[0].attrs[5].0 == "az.sdk_version"@
            &&& tree.nodes[0].attrs[6].0 == "az.driver_version"@
            &&& tree.nodes[0].attrs[7].0 == "az.user_agent"@
            &&& says(tree.nodes[0].attrs, "az.sdk_version"@, client_of(preamble).sdk_version)
            &&& says(tree.nodes[0].attrs, "az.driver_version"@, client_of(preamble).driver_version)
            &&& says(tree.nodes[0].attrs, "az.user_agent"@, client_of(preamble).user_agent)
            &&& forall|i: int|
                0 <= i < a ==> tells_attempt(
                    #[trigger] tree.nodes[1 + i],
                    p.attempts[i].index as nat,
                    p.attempts[i].status,
                    Some(p.attempts[i].service_request_id),
                    Some(charges[i]),
                    p.attempts[i].start_ns as int,
                    p.attempts[i].duration_ns as int,
                )
            &&& forall|i: int|
                0 <= i < p.children.len() ==> tells_child(
                    #[trigger] tree.nodes[1 + a + i],
                    p.children[i].plan_node_id,
                    p.children[i].feed_range,
                    p.children[i].start_ns as int,
                    p.children[i].duration_ns as int,
                )
        }),
{
    let tree = built_tree(p, charges, preamble);
    let a = p.attempts.len();
    lemma_root(
        p.operation,
        p.endpoint,
        p.client_request_id,
        p.attempt_count,
        p.outcome,
        p.start_ns,
        p.total_ns,
        crate::combo4::client_attrs(client_of(preamble)),
    );
    assert forall|i: int| 0 <= i < a implies tells_attempt(
        #[trigger] tree.nodes[1 + i],
        p.attempts[i].index as nat,
        p.attempts[i].status,
        Some(p.attempts[i].service_request_id),
        Some(charges[i]),
        p.attempts[i].start_ns as int,
        p.attempts[i].duration_ns as int,
    ) by {
        lemma_attempt(
            p.attempts[i].index,
            p.attempts[i].status,
            Some(p.attempts[i].service_request_id),
            Some(charges[i]),
            p.attempts[i].start_ns,
            p.attempts[i].duration_ns,
        );
    }
    assert forall|i: int| 0 <= i < p.children.len() implies tells_child(
        #[trigger] tree.nodes[1 + a + i],
        p.children[i].plan_node_id,
        p.children[i].feed_range,
        p.children[i].start_ns as int,
        p.children[i].duration_ns as int,
    ) by {
        lemma_child(
            p.children[i].plan_node_id,
            p.children[i].feed_range,
            p.children[i].start_ns,
            p.children[i].duration_ns,
        );
    }
}

/// The tree that is built of the log of a script tells the script, with the charges as they are
/// handed in.
pub proof fn law_built_tree_tells_the_script(
    input: InputModel,
    now: u64,
    charges: Seq<Seq<char>>,
    preamble: PreambleModel,
)
    requires
        input.attempts.len() <= 0xFFFF_FFFF,
        now + time_of(input) <= 0xFFFF_FFFF_FFFF_FFFF,
        charges.len() == input.attempts.len(),
        forall|i: int|
            0 <= i < charges.len() ==> #[trigger] charges[i]
                == input.attempts[i].request_charge.text,
    ensures
        tells_script(
            built_tree(logged(input, scripted_responses(input), now), charges, preamble),
            input,
            now,
        ),
{
    let p = logged(input, scripted_responses(input), now);
    law_built_tree_tells_the_log(p, charges, preamble);
    lemma_starts(input, now);
    let tree = built_tree(p, charges, preamble);
    let a = input.attempts.len();
    assert forall|i: int| 0 <= i < a implies tells_attempt(
        #[trigger] tree.nodes[1 + i],
        i as nat,
        input.attempts[i].status,
        Some(input.attempts[i].service_request_id),
        Some(input.attempts[i].request_charge.text),
        attempt_start(input, now, i),
        input.attempts[i].duration_ns as int,
    ) by {
        assert(p.attempts[i].status == input.attempts[i].status);
        assert(attempt_start(input, now, i) == p.attempts[i].start_ns);
    }
    assert forall|i: int| 0 <= i < input.children.len() implies tells_child(
        #[trigger] tree.nodes[1 + a + i],
        input.children[i].plan_node_id,
        input.children[i].feed_range,
        child_start(input, now, i),
        input.children[i].duration_ns as int,
    ) by {
        assert(child_start(input, now, i) == p.children[i].start_ns);
    }
}

} // verus!
