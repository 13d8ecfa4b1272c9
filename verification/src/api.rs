use vstd::prelude::*;

use crate::config::DhtBackendKind;

verus! {

/// How a handle answers a request for a single lookup.
#[derive(Clone, Copy, Debug, PartialEq, Eq, Structural)]
pub enum LookupAnswer {
    /// Ask the service.
    Ask,
    /// There are no peers, since nothing looks for them.
    NoPeers,
    /// The request failed.
    Refused,
}

/// How a handle begins a single lookup.
pub open spec fn first_answer(service_gone: bool, backend: DhtBackendKind) -> LookupAnswer {
    if service_gone && backend == DhtBackendKind::Disabled {
        LookupAnswer::NoPeers
    } else {
        LookupAnswer::Ask
    }
}

/// How a handle answers where a request has not reached the service.
pub open spec fn missed_answer(backend: DhtBackendKind) -> LookupAnswer {
    if backend == DhtBackendKind::Disabled {
        LookupAnswer::NoPeers
    } else {
        LookupAnswer::Refused
    }
}

/// How a handle to a service begins a single lookup: it asks the service, unless that is gone and
/// had no runtime.
pub fn begin_lookup(service_gone: bool, backend: DhtBackendKind) -> (answer: LookupAnswer)
    ensures
        answer == first_answer(service_gone, backend),
        answer == if service_gone && backend == DhtBackendKind::Disabled {
            LookupAnswer::NoPeers
        } else {
            LookupAnswer::Ask
        },
{
    if service_gone && backend == DhtBackendKind::Disabled {
        LookupAnswer::NoPeers
    } else {
        LookupAnswer::Ask
    }
}

/// How a handle answers once a request has not reached the service: without a runtime there would
/// have been no peers anyway.
pub fn unreachable_lookup(backend: DhtBackendKind) -> (answer: LookupAnswer)
    ensures
        answer == missed_answer(backend),
        answer == if backend == DhtBackendKind::Disabled {
            LookupAnswer::NoPeers
        } else {
            LookupAnswer::Refused
        },
{
    if backend == DhtBackendKind::Disabled {
        LookupAnswer::NoPeers
    } else {
        LookupAnswer::Refused
    }
}

} // verus!
