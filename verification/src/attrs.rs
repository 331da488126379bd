//! Canonical diagnostics attribute keys and the HTTP header names that carry their values.
//!
//! The service request id always comes from the response header `x-ms-request-id`, never from the
//! request.

use vstd::prelude::*;

verus! {

/// Response header with the service-generated request id.
pub const HEADER_SERVICE_REQUEST_ID: &'static str = "x-ms-request-id";

/// Header with the client-generated request id.
pub const HEADER_CLIENT_REQUEST_ID: &'static str = "x-ms-client-request-id";

/// Response header with the Cosmos request charge in request units.
pub const HEADER_REQUEST_CHARGE: &'static str = "x-ms-request-charge";

/// Attribute key for the service request id.
pub const ATTR_SERVICE_REQUEST_ID: &'static str = "az.service_request_id";

/// Attribute key for the client request id.
pub const ATTR_CLIENT_REQUEST_ID: &'static str = "az.client_request_id";

/// Attribute key for the HTTP status code.
pub const ATTR_STATUS_CODE: &'static str = "az.status_code";

/// Attribute key for the error kind on the error path.
pub const ATTR_ERROR_KIND: &'static str = "az.error_kind";

/// Attribute key for the request charge.
pub const ATTR_REQUEST_CHARGE: &'static str = "az.request_charge";

/// Attribute key for the service endpoint.
pub const ATTR_ENDPOINT: &'static str = "az.endpoint";

/// Attribute key for the query plan tree node id.
pub const ATTR_PLAN_NODE_ID: &'static str = "az.plan_node_id";

/// Attribute key for the feed range that a child span addresses.
pub const ATTR_FEED_RANGE: &'static str = "az.feed_range";

/// Attribute key for the total attempt count of an operation.
pub const ATTR_ATTEMPT_COUNT: &'static str = "az.attempt_count";

/// Attribute key for the operation name.
pub const ATTR_OPERATION: &'static str = "az.operation";

/// Attribute key for the outcome of an operation.
pub const ATTR_OUTCOME: &'static str = "az.outcome";

/// Attribute key for the index of an attempt.
pub const ATTR_ATTEMPT_INDEX: &'static str = "attempt_index";

} // verus!
