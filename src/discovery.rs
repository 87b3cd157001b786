//! The peer-discovery bridge and the decisions of the event loop: which
//! advertised peers are admitted into the DHT routing table, and what each
//! event of the loop asks for. Running the loop, its timers and the DHT
//! itself is left to the caller.
use vstd::prelude::*;

verus! {

/// The protocol identifier by which a peer advertises DHT support on the
/// network this node serves.
pub const KADEMLIA_PROTOCOL_NAME: &'static str = "/pathfinder/kad/1.0.0";

/// Period, in seconds, of the network status report.
pub const STATUS_INTERVAL_SECS: u64 = 5;

/// `protocols` holds exactly `wanted` (not a prefix, suffix or variant of it).
pub open spec fn advertises(protocols: Seq<String>, wanted: Seq<char>) -> bool {
    exists|i: int| 0 <= i < protocols.len() && #[trigger] protocols[i]@ == wanted
}

/// Whether one of `protocols` equals `wanted` exactly.
pub fn advertises_protocol(protocols: &Vec<String>, wanted: &String) -> (r: bool)
    ensures
        r == advertises(protocols@, wanted@),
{
    let mut i: usize = 0;
    while i < protocols.len()
        invariant
            i <= protocols@.len(),
            forall|j: int| 0 <= j < i ==> #[trigger] protocols@[j]@ != wanted@,
        decreases protocols@.len() - i,
    {
        if protocols[i] == *wanted {
            return true;
        }
        i = i + 1;
    }
    false
}

/// The addresses of an advertised peer that go into the routing table: all of
/// `listen_addrs` where `protocols` holds `dht_protocol` exactly, else none.
pub fn admitted_addresses<A>(dht_protocol: &String, protocols: &Vec<String>, listen_addrs: Vec<A>) -> (r: Vec<A>)
    ensures
        r@ == (if advertises(protocols@, dht_protocol@) {
            listen_addrs@
        } else {
            Seq::<A>::empty()
        }),
{
    if advertises_protocol(protocols, dht_protocol) {
        listen_addrs
    } else {
        Vec::new()
    }
}

/// What the event loop is woken by, with the fields of a received
/// metadata-exchange descriptor that the loop reads.
pub enum SwarmInput<P, A> {
    BootstrapTick,
    StatusTick,
    IdentifyReceived { peer_id: P, protocols: Vec<String>, listen_addrs: Vec<A> },
    Other,
}

/// What the event loop does in answer to one input.
pub enum LoopAction<P, A> {
    /// Run a DHT bootstrap; whatever it returns, the loop goes on.
    Bootstrap,
    /// Emit a record of the peer and connection counters.
    ReportStatus,
    /// Add each address for the peer to the routing table.
    AddAddresses { peer_id: P, addrs: Vec<A> },
    /// Record the event at low severity, and nothing more.
    Ignore,
}

/// The action that answers `input`, where `dht` is the DHT protocol identifier.
pub open spec fn action_for<P, A>(dht: Seq<char>, input: SwarmInput<P, A>) -> LoopAction<P, A> {
    match input {
        SwarmInput::BootstrapTick => LoopAction::Bootstrap,
        SwarmInput::StatusTick => LoopAction::ReportStatus,
        SwarmInput::IdentifyReceived { peer_id, protocols, listen_addrs } => {
            if advertises(protocols@, dht) {
                LoopAction::AddAddresses { peer_id, addrs: listen_addrs }
            } else {
                LoopAction::Ignore
            }
        },
        SwarmInput::Other => LoopAction::Ignore,
    }
}

/// Decides what the event loop does with one input.
pub fn next_action<P, A>(dht_protocol: &String, input: SwarmInput<P, A>) -> (r: LoopAction<P, A>)
    ensures
        r == action_for(dht_protocol@, input),
{
    match input {
        SwarmInput::BootstrapTick => LoopAction::Bootstrap,
        SwarmInput::StatusTick => LoopAction::ReportStatus,
        SwarmInput::IdentifyReceived { peer_id, protocols, listen_addrs } => {
            if advertises_protocol(&protocols, dht_protocol) {
                LoopAction::AddAddresses { peer_id, addrs: listen_addrs }
            } else {
                LoopAction::Ignore
            }
        },
        SwarmInput::Other => LoopAction::Ignore,
    }
}

/// The two timer periods of the loop, in seconds.
pub struct LoopPeriods {
    pub bootstrap_secs: u64,
    pub status_secs: u64,
}

/// The loop's timer periods for a configured bootstrap interval, or `None`
/// where that interval is zero (the interval must be a positive number).
pub open spec fn periods_for(bootstrap_interval_secs: u64) -> Option<LoopPeriods> {
    if bootstrap_interval_secs == 0 {
        None
    } else {
        Some(LoopPeriods { bootstrap_secs: bootstrap_interval_secs, status_secs: STATUS_INTERVAL_SECS })
    }
}

/// Computes the loop's timer periods from the configured bootstrap interval.
pub fn loop_periods(bootstrap_interval_secs: u64) -> (r: Option<LoopPeriods>)
    ensures
        r == periods_for(bootstrap_interval_secs),
{
    if bootstrap_interval_secs == 0 {
        None
    } else {
        Some(LoopPeriods { bootstrap_secs: bootstrap_interval_secs, status_secs: STATUS_INTERVAL_SECS })
    }
}

/// The status period does not depend on the configured bootstrap interval,
/// and the bootstrap period is the configured one whatever the status period.
pub proof fn lemma_timers_are_independent(b1: u64, b2: u64)
    requires
        b1 > 0,
        b2 > 0,
    ensures
        periods_for(b1) is Some && periods_for(b2) is Some,
        periods_for(b1)->Some_0.status_secs == periods_for(b2)->Some_0.status_secs,
        periods_for(b1)->Some_0.bootstrap_secs == b1,
        periods_for(b2)->Some_0.bootstrap_secs == b2,
{
}

/// A peer's addresses are admitted exactly when its advertised protocols hold
/// the DHT identifier itself: then every address is added, otherwise none is,
/// however close another advertised identifier comes to it.
pub proof fn lemma_exact_match_admission<P, A>(
    dht: Seq<char>,
    peer_id: P,
    protocols: Vec<String>,
    listen_addrs: Vec<A>,
)
    ensures
        ((exists|i: int| 0 <= i < protocols@.len() && protocols@[i]@ == dht) ==> action_for(
            dht,
            (SwarmInput::IdentifyReceived { peer_id, protocols, listen_addrs }),
        ) == (LoopAction::AddAddresses { peer_id, addrs: listen_addrs })),
        ((forall|i: int| 0 <= i < protocols@.len() ==> protocols@[i]@ != dht) ==> action_for(
            dht,
            (SwarmInput::IdentifyReceived { peer_id, protocols, listen_addrs }),
        ) == LoopAction::<P, A>::Ignore),
{
}

/// A failed bootstrap changes nothing for the next one: the decision holds
/// no state, and every bootstrap tick asks for a bootstrap again, whatever
/// the previous one returned.
pub proof fn lemma_bootstrap_failure_is_absorbed<P, A>(dht: Seq<char>)
    ensures
        action_for(dht, SwarmInput::<P, A>::BootstrapTick) == LoopAction::<P, A>::Bootstrap,
{
}

/// A timer that fires at once and then every `period` fires, within a run of
/// `run` time units, at the times `k * period` below `run`: that is `n` times
/// where `n` is the least count with `n * period >= run`.
pub open spec fn fires_within(period: nat, run: nat, n: nat) -> bool {
    n * period >= run && (n == 0 || (n - 1) * period < run)
}

/// How many times a timer of period `period` fires within a run of `run`
/// time units, counting the tick at the start.
pub fn ticks_within(period: u64, run: u64) -> (r: u64)
    requires
        period > 0,
    ensures
        fires_within(period as nat, run as nat, r as nat),
{
    let q: u64 = run / period;
    let rem: u64 = run % period;
    proof {
        assert(q * period + rem == run) by (nonlinear_arith)
            requires
                q == run / period,
                rem == run % period,
                period > 0,
        ;
    }
    if rem == 0 {
        proof {
            assert(q == 0 || (q - 1) * period < run) by (nonlinear_arith)
                requires
                    q * period == run,
                    period > 0,
            ;
        }
        q
    } else {
        proof {
            assert(q + 1 <= run && (q + 1) * period > run && q * period < run) by (nonlinear_arith)
                requires
                    q * period + rem == run,
                    0 < rem < period,
            ;
        }
        q + 1
    }
}

} // verus!
