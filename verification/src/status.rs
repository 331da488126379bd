//! Reading HTTP status codes.

use vstd::prelude::*;

verus! {

/// Whether an HTTP status stands for success (2xx).
pub open spec fn is_success_status(status: u16) -> bool {
    200 <= status < 300
}

/// Whether an HTTP status stands for success (2xx).
pub fn status_succeeds(status: u16) -> (r: bool)
    ensures
        r == is_success_status(status),
{
    200 <= status && status < 300
}

/// The coarse error kind of a status.
pub open spec fn error_kind_of(status: u16) -> Seq<char> {
    if status == 429 {
        "throttled"@
    } else if status == 404 {
        "not_found"@
    } else if 400 <= status <= 499 {
        "client_error"@
    } else if 500 <= status <= 599 {
        "server_error"@
    } else {
        "unknown"@
    }
}

/// The coarse error kind of a status.
pub fn error_kind(status: u16) -> (kind: &'static str)
    ensures
        kind@ == error_kind_of(status),
{
    if status == 429 {
        "throttled"
    } else if status == 404 {
        "not_found"
    } else if 400 <= status && status <= 499 {
        "client_error"
    } else if 500 <= status && status <= 599 {
        "server_error"
    } else {
        "unknown"
    }
}

/// The coarse error kind of a status that does not stand for success.
pub open spec fn failure_kind_of(status: u16) -> Option<Seq<char>> {
    if is_success_status(status) {
        None
    } else {
        Some(error_kind_of(status))
    }
}

/// The coarse error kind of a status, or `None` where it stands for success.
pub fn failure_kind(status: u16) -> (kind: Option<&'static str>)
    ensures
        match kind {
            Some(k) => failure_kind_of(status) == Some(k@),
            None => failure_kind_of(status) is None,
        },
{
    if status_succeeds(status) {
        None
    } else {
        Some(error_kind(status))
    }
}

} // verus!
