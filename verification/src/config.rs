use vstd::prelude::*;
use vstd::string::*;

use crate::ids::PeerAddr;

verus! {

/// What carries out the service's lookups.
#[derive(Clone, Copy, Debug, PartialEq, Eq, Hash, Structural)]
pub enum DhtBackendKind {
    Disabled,
    InternalPrototype,
    Mainline,
}

/// A node to bootstrap from: the text that was configured, and the socket address in it where the
/// text is one.
#[derive(Clone, Debug, PartialEq, Eq)]
pub struct BootstrapNode {
    pub source: String,
    pub literal: Option<PeerAddr>,
}

/// What of the program's settings concerns the service.
#[derive(Clone, Debug, PartialEq, Eq)]
pub struct Settings {
    pub client_port: u16,
    pub bootstrap_nodes: Vec<BootstrapNode>,
    pub dht_backend: DhtBackendKind,
}

/// How the service is to run.
#[derive(Clone, Debug, PartialEq, Eq)]
pub struct DhtServiceConfig {
    pub port: u16,
    pub bootstrap_nodes: Vec<BootstrapNode>,
    pub preferred_backend: DhtBackendKind,
    pub force_internal_failure: bool,
}

/// The bootstrap nodes of a service, by address family.
#[derive(Clone, Copy, Debug, PartialEq, Eq, Structural)]
pub struct BootstrapSummary {
    pub total: usize,
    pub ipv4: usize,
    pub ipv6: usize,
}

/// Whether a node is given by an IPv4 address, or by an IPv6 address.
pub open spec fn is_literal(ipv4: bool) -> spec_fn(BootstrapNode) -> bool {
    |node: BootstrapNode|
        match node.literal {
            Some(address) => address.is_ipv4() == ipv4,
            None => false,
        }
}

/// The nodes that are given by an address, by family. A node given by a name counts only for the
/// total.
pub open spec fn literal_summary(nodes: Seq<BootstrapNode>) -> BootstrapSummary {
    BootstrapSummary {
        total: nodes.len() as usize,
        ipv4: nodes.filter(is_literal(true)).len() as usize,
        ipv6: nodes.filter(is_literal(false)).len() as usize,
    }
}

pub fn literal_bootstrap_summary(bootstrap_nodes: &[BootstrapNode]) -> (summary: BootstrapSummary)
    ensures
        summary == literal_summary(bootstrap_nodes@),
        summary.ipv4 + summary.ipv6 <= summary.total,
{
    let mut ipv4: usize = 0;
    let mut ipv6: usize = 0;
    let mut i: usize = 0;
    proof {
        reveal(Seq::filter);
        assert(bootstrap_nodes@.take(0).filter(is_literal(true)).len() == 0);
        assert(bootstrap_nodes@.take(0).filter(is_literal(false)).len() == 0);
    }
    while i < bootstrap_nodes.len()
        invariant
            0 <= i <= bootstrap_nodes@.len(),
            ipv4 + ipv6 <= i,
            ipv4 == bootstrap_nodes@.take(i as int).filter(is_literal(true)).len(),
            ipv6 == bootstrap_nodes@.take(i as int).filter(is_literal(false)).len(),
        decreases bootstrap_nodes@.len() - i,
    {
        proof {
            reveal(Seq::filter);
            assert(bootstrap_nodes@.take(i + 1).drop_last() =~= bootstrap_nodes@.take(i as int));
        }
        if let Some(address) = &bootstrap_nodes[i].literal {
            if address.is_ipv4() {
                ipv4 = ipv4 + 1;
            } else {
                ipv6 = ipv6 + 1;
            }
        }
        i = i + 1;
    }
    assert(bootstrap_nodes@.take(i as int) =~= bootstrap_nodes@);
    BootstrapSummary { total: bootstrap_nodes.len(), ipv4, ipv6 }
}

/// Whether an address is an IPv4 address, or is not.
pub open spec fn has_family(ipv4: bool) -> spec_fn(PeerAddr) -> bool {
    |address: PeerAddr| address.is_ipv4() == ipv4
}

/// The bootstrap nodes that were found by name, by family.
pub fn resolved_bootstrap_summary(addresses: &[PeerAddr]) -> (summary: BootstrapSummary)
    ensures
        summary.total == addresses@.len(),
        summary.ipv4 == addresses@.filter(has_family(true)).len(),
        summary.ipv6 == addresses@.filter(has_family(false)).len(),
        summary.ipv4 + summary.ipv6 == summary.total,
{
    let mut ipv4: usize = 0;
    let mut ipv6: usize = 0;
    let mut i: usize = 0;
    proof {
        reveal(Seq::filter);
        assert(addresses@.take(0).filter(has_family(true)).len() == 0);
        assert(addresses@.take(0).filter(has_family(false)).len() == 0);
    }
    while i < addresses.len()
        invariant
            0 <= i <= addresses@.len(),
            ipv4 + ipv6 == i,
            ipv4 == addresses@.take(i as int).filter(has_family(true)).len(),
            ipv6 == addresses@.take(i as int).filter(has_family(false)).len(),
        decreases addresses@.len() - i,
    {
        proof {
            reveal(Seq::filter);
            assert(addresses@.take(i + 1).drop_last() =~= addresses@.take(i as int));
        }
        if addresses[i].is_ipv4() {
            ipv4 = ipv4 + 1;
        } else {
            ipv6 = ipv6 + 1;
        }
        i = i + 1;
    }
    assert(addresses@.take(i as int) =~= addresses@);
    BootstrapSummary { total: addresses.len(), ipv4, ipv6 }
}

/// Addresses behind `known`, each that is not there yet, in their order.
pub open spec fn with_new(known: Seq<PeerAddr>, addresses: Seq<PeerAddr>) -> Seq<PeerAddr>
    decreases addresses.len(),
{
    if addresses.len() == 0 {
        known
    } else {
        let before = with_new(known, addresses.drop_last());
        if before.contains(addresses.last()) {
            before
        } else {
            before.push(addresses.last())
        }
    }
}

/// The addresses that several names were resolved to, each once, in the order in which they came.
/// A name that could not be resolved brings none.
pub open spec fn resolved_addresses(answers: Seq<Option<Vec<PeerAddr>>>) -> Seq<PeerAddr>
    decreases answers.len(),
{
    if answers.len() == 0 {
        seq![]
    } else {
        let before = resolved_addresses(answers.drop_last());
        match answers.last() {
            Some(addresses) => with_new(before, addresses@),
            None => before,
        }
    }
}

/// Whether an address is in a list.
fn is_listed(list: &Vec<PeerAddr>, address: PeerAddr) -> (listed: bool)
    ensures
        listed == list@.contains(address),
{
    let mut i: usize = 0;
    while i < list.len()
        invariant
            0 <= i <= list@.len(),
            forall|j: int| 0 <= j < i ==> list@[j] != address,
        decreases list@.len() - i,
    {
        if list[i] == address {
            return true;
        }
        i = i + 1;
    }
    false
}

/// Adds each address that is not there yet.
fn add_new(resolved: &mut Vec<PeerAddr>, addresses: &[PeerAddr])
    ensures
        final(resolved)@ == with_new(old(resolved)@, addresses@),
{
    let mut i: usize = 0;
    while i < addresses.len()
        invariant
            0 <= i <= addresses@.len(),
            resolved@ == with_new(old(resolved)@, addresses@.take(i as int)),
        decreases addresses@.len() - i,
    {
        assert(addresses@.take(i + 1).drop_last() =~= addresses@.take(i as int));
        let seen = is_listed(resolved, addresses[i]);
        if !seen {
            resolved.push(addresses[i]);
        }
        i = i + 1;
    }
    assert(addresses@.take(i as int) =~= addresses@);
}

/// The addresses to bootstrap from, out of the answers to each configured name.
pub fn collect_bootstrap_nodes(answers: &Vec<Option<Vec<PeerAddr>>>) -> (resolved: Vec<PeerAddr>)
    ensures
        resolved@ == resolved_addresses(answers@),
{
    let mut resolved: Vec<PeerAddr> = Vec::new();
    let mut i: usize = 0;
    assert(resolved@ =~= seq![]);
    while i < answers.len()
        invariant
            0 <= i <= answers@.len(),
            resolved@ == resolved_addresses(answers@.take(i as int)),
        decreases answers@.len() - i,
    {
        assert(answers@.take(i + 1).drop_last() =~= answers@.take(i as int));
        if let Some(addresses) = &answers[i] {
            add_new(&mut resolved, addresses.as_slice());
        }
        i = i + 1;
    }
    assert(answers@.take(i as int) =~= answers@);
    resolved
}

/// No address is taken twice.
pub proof fn resolved_addresses_are_distinct(answers: Seq<Option<Vec<PeerAddr>>>)
    ensures
        resolved_addresses(answers).no_duplicates(),
    decreases answers.len(),
{
    if answers.len() > 0 {
        resolved_addresses_are_distinct(answers.drop_last());
        match answers.last() {
            Some(addresses) => {
                lemma_with_new_distinct(resolved_addresses(answers.drop_last()), addresses@);
            },
            None => {},
        }
    }
}

proof fn lemma_with_new_distinct(known: Seq<PeerAddr>, addresses: Seq<PeerAddr>)
    requires
        known.no_duplicates(),
    ensures
        with_new(known, addresses).no_duplicates(),
    decreases addresses.len(),
{
    if addresses.len() > 0 {
        lemma_with_new_distinct(known, addresses.drop_last());
    }
}

impl DhtServiceConfig {
    /// The configuration that the settings call for.
    pub fn from_settings(settings: &Settings) -> (config: Self)
        ensures
            config.port == settings.client_port,
            config.bootstrap_nodes@ == settings.bootstrap_nodes@,
            config.preferred_backend == settings.dht_backend,
            !config.force_internal_failure,
    {
        let mut bootstrap_nodes: Vec<BootstrapNode> = Vec::new();
        let mut i: usize = 0;
        while i < settings.bootstrap_nodes.len()
            invariant
                0 <= i <= settings.bootstrap_nodes@.len(),
                bootstrap_nodes@ =~= settings.bootstrap_nodes@.take(i as int),
            decreases settings.bootstrap_nodes@.len() - i,
        {
            let node = &settings.bootstrap_nodes[i];
            bootstrap_nodes.push(
                BootstrapNode { source: node.source.clone(), literal: node.literal },
            );
            i = i + 1;
        }
        assert(settings.bootstrap_nodes@.take(i as int) =~= settings.bootstrap_nodes@);
        DhtServiceConfig {
            port: settings.client_port,
            bootstrap_nodes,
            preferred_backend: settings.dht_backend,
            force_internal_failure: false,
        }
    }
}

/// The failure that a configuration asks for.
pub fn forced_internal_backend_error(config: &DhtServiceConfig) -> (error: Option<String>)
    ensures
        error.is_some() <==> config.force_internal_failure,
        error.is_some() ==> error.unwrap()@ == "forced internal backend failure"@,
{
    if config.force_internal_failure {
        Some(String::from_str("forced internal backend failure"))
    } else {
        None
    }
}

/// The warning that comes with a backend.
pub fn backend_warning(backend: DhtBackendKind) -> (warning: Option<String>)
    ensures
        warning.is_some() <==> backend == DhtBackendKind::Mainline,
        warning.is_some() ==> warning.unwrap()@
            == "mainline backend setting now maps to the internal runtime"@,
{
    match backend {
        DhtBackendKind::Mainline => Some(
            String::from_str("mainline backend setting now maps to the internal runtime"),
        ),
        _ => None,
    }
}

/// How a runtime is built.
#[derive(Debug)]
pub enum RuntimeBuildPlan {
    /// It is not: the configuration asks for this failure.
    Fail(String),
    /// There is none.
    Disabled { bootstrap: BootstrapSummary },
    /// By binding to a port, with a warning to go with it.
    Bind { port: u16, warning: Option<String> },
}

/// How the runtime for a configuration is built. A failure that is asked for comes first.
pub fn plan_runtime_build(config: &DhtServiceConfig) -> (plan: RuntimeBuildPlan)
    ensures
        match plan {
            RuntimeBuildPlan::Fail(error) => config.force_internal_failure && error@
                == "forced internal backend failure"@,
            RuntimeBuildPlan::Disabled { bootstrap } => !config.force_internal_failure
                && config.preferred_backend == DhtBackendKind::Disabled && bootstrap
                == literal_summary(config.bootstrap_nodes@),
            RuntimeBuildPlan::Bind { port, warning } => {
                &&& !config.force_internal_failure
                &&& config.preferred_backend != DhtBackendKind::Disabled
                &&& port == config.port
                &&& warning.is_some() <==> config.preferred_backend == DhtBackendKind::Mainline
                &&& warning.is_some() ==> warning.unwrap()@
                    == "mainline backend setting now maps to the internal runtime"@
            },
        },
{
    if let Some(error) = forced_internal_backend_error(config) {
        return RuntimeBuildPlan::Fail(error);
    }
    if config.preferred_backend == DhtBackendKind::Disabled {
        return RuntimeBuildPlan::Disabled {
            bootstrap: literal_bootstrap_summary(config.bootstrap_nodes.as_slice()),
        };
    }
    RuntimeBuildPlan::Bind {
        port: config.port,
        warning: backend_warning(config.preferred_backend),
    }
}

} // verus!
