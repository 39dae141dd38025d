//! The OSC side of the service: status registrations, routing, and the
//! acknowledgement of heartbeats.
//!
//! Within one batch every registration is applied before any packet is
//! routed, so a heartbeat that arrives together with the registration of its
//! sender is already acknowledged.
use vstd::prelude::*;
use vstd::string::StringExecFns;

use crate::osc::{args_model, encode_int_message, int_message_spec, starts_with_slash, ArgModel, OscArgument, OscPacket};
use crate::sensation::SensationState;
use crate::signal::{
    channel_prefix_of, heartbeat_address_of, namespace_base, route_spec, take_timeout_spec, HapticEvent,
    HapticRouter, RouterModel, Target,
};
use crate::status::{
    lemma_on_ip_contains, lemma_registration_enables_acknowledgement, lemma_retain, on_ip, register_spec, registration_port, registry_wf,
    target_of, PeerAddress, RegistryModel, StatusRegistry,
};
use crate::transport::{entries_of, Entry, ReceivedPacket};

verus! {

broadcast use vstd::string::group_string_axioms;

/// The address on which a peer registers its acknowledgement port.
pub open spec fn status_port_address_of(namespace: Seq<char>) -> Seq<char> {
    namespace_base(namespace) + "/status/port"@
}

/// The address of heartbeat acknowledgements.
pub open spec fn status_heartbeat_address_of(namespace: Seq<char>) -> Seq<char> {
    namespace_base(namespace) + "/status/heartbeat"@
}

/// The sequence number of a heartbeat: one integer sent to the heartbeat address.
pub open spec fn heartbeat_sequence_spec(heartbeat_address: Seq<char>, address: Seq<char>, args: Seq<ArgModel>) -> Option<i32> {
    if address == heartbeat_address && args.len() == 1 && args[0] is Int {
        Some(args[0]->Int_0)
    } else {
        None
    }
}

/// The registry after the registrations of a batch, taken in arrival order,
/// with the `(peer, target)` pairs that were new.
pub open spec fn register_all_spec(m: RegistryModel, entries: Seq<Entry<PeerAddress>>, port_address: Seq<char>) -> (RegistryModel, Seq<(PeerAddress, PeerAddress)>)
    decreases entries.len(),
{
    if entries.len() == 0 {
        (m, seq![])
    } else {
        let (before, added) = register_all_spec(m, entries.drop_last(), port_address);
        let e = entries.last();
        if e.0 == port_address {
            let (next, new) = register_spec(before, e.1, e.2);
            if new {
                (next, added.push((e.2, target_of(e.2, registration_port(e.1)->Some_0))))
            } else {
                (next, added)
            }
        } else {
            (before, added)
        }
    }
}

/// A heartbeat that arrives in the same batch as a registration from its
/// sender's IP is acknowledged to the registered port, wherever in the
/// batch the registration stands.
pub proof fn lemma_batch_registration_acknowledged(
    m: RegistryModel,
    entries: Seq<Entry<PeerAddress>>,
    port_address: Seq<char>,
    k: int,
    sender: PeerAddress,
)
    requires
        0 <= k < entries.len(),
        entries[k].0 == port_address,
        registration_port(entries[k].1) is Some,
        sender.ip == entries[k].2.ip,
    ensures
        on_ip(register_all_spec(m, entries, port_address).0.targets, sender.ip).contains(
            target_of(entries[k].2, registration_port(entries[k].1)->Some_0),
        ),
    decreases entries.len(),
{
    let target = target_of(entries[k].2, registration_port(entries[k].1)->Some_0);
    let d = entries.drop_last();
    let before = register_all_spec(m, d, port_address).0;
    let after = register_all_spec(m, entries, port_address).0;
    if k == entries.len() - 1 {
        lemma_registration_enables_acknowledgement(before, entries[k].1, entries[k].2, sender);
    } else {
        assert(d[k] == entries[k]);
        lemma_batch_registration_acknowledged(m, d, port_address, k, sender);
        lemma_on_ip_contains(before.targets, sender.ip, target);
        let e = entries.last();
        if e.0 == port_address && registration_port(e.1) is Some {
            let t2 = target_of(e.2, registration_port(e.1)->Some_0);
            if !before.targets.contains(t2) {
                let j = choose|j: int| 0 <= j < before.targets.len() && before.targets[j] == target;
                assert(before.targets.push(t2)[j] == target);
            }
        }
        assert(after.targets.contains(target));
        lemma_on_ip_contains(after.targets, sender.ip, target);
    }
}

/// What to do about a heartbeat once its packet is routed.
#[derive(Debug)]
pub enum Acknowledgement {
    /// The packet is no heartbeat.
    NotHeartbeat,
    /// The sender's IP registered no target; `first` is true the first time
    /// this sender is seen without one.
    Unregistered { first: bool },
    /// Send `reply` to each of `targets`.
    Send { reply: Vec<u8>, targets: Vec<PeerAddress> },
}

/// The state of the OSC side.
pub struct RuntimeModel {
    pub heartbeat_address: Seq<char>,
    pub status_port_address: Seq<char>,
    pub status_heartbeat_address: Seq<char>,
    pub router: RouterModel,
    pub registry: RegistryModel,
}

/// The router of one namespace together with its status registrations.
#[derive(Debug)]
pub struct OscRuntime {
    heartbeat_address: String,
    status_port_address: String,
    status_heartbeat_address: String,
    router: HapticRouter,
    registry: StatusRegistry,
}

impl View for OscRuntime {
    type V = RuntimeModel;

    closed spec fn view(&self) -> RuntimeModel {
        RuntimeModel {
            heartbeat_address: self.heartbeat_address@,
            status_port_address: self.status_port_address@,
            status_heartbeat_address: self.status_heartbeat_address@,
            router: self.router@,
            registry: self.registry@,
        }
    }
}

/// The addresses agree with the router, acknowledgements can be encoded, and
/// the registry repeats no entry.
pub open spec fn runtime_wf(m: RuntimeModel) -> bool {
    &&& m.heartbeat_address == m.router.heartbeat_address
    &&& starts_with_slash(m.status_heartbeat_address)
    &&& vstd::utf8::encode_utf8(m.status_heartbeat_address).len() + 32 <= usize::MAX
    &&& registry_wf(m.registry)
}

impl OscRuntime {
    /// The OSC side for `namespace`, with no registrations yet.
    pub fn new(namespace: &str, heartbeat_timeout: u64, targets: Vec<(String, Target)>) -> (r: Self)
        requires
            vstd::utf8::encode_utf8(status_heartbeat_address_of(namespace@)).len() + 32 <= usize::MAX,
        ensures
            runtime_wf(r@),
            r@.heartbeat_address == heartbeat_address_of(namespace@),
            r@.status_port_address == status_port_address_of(namespace@),
            r@.status_heartbeat_address == status_heartbeat_address_of(namespace@),
            r@.router.heartbeat_address == heartbeat_address_of(namespace@),
            r@.router.channel_prefix == channel_prefix_of(namespace@),
            r@.router.heartbeat_timeout == heartbeat_timeout,
            r@.router.targets == targets@.map_values(|t: (String, Target)| (t.0@, t.1)),
            r@.router.last_heartbeat is None,
            r@.router.state == SensationState::default_spec(),
            r@.router.timed_out,
            r@.registry.targets.len() == 0,
            r@.registry.unregistered.len() == 0,
    {
        proof {
            reveal_strlit("/avatar/parameters/");
        }
        let mut base = "/avatar/parameters/".to_owned();
        base.append(namespace);
        let mut heartbeat = base.clone();
        heartbeat.append("/heartbeat");
        let mut port = base.clone();
        port.append("/status/port");
        let mut acknowledgement = base.clone();
        acknowledgement.append("/status/heartbeat");
        let router = HapticRouter::new(namespace, heartbeat_timeout, targets);
        assert(acknowledgement@[0] == base@[0]);
        OscRuntime {
            heartbeat_address: heartbeat,
            status_port_address: port,
            status_heartbeat_address: acknowledgement,
            router,
            registry: StatusRegistry::new(),
        }
    }

    /// The address of heartbeats.
    pub fn heartbeat_address(&self) -> (r: &str)
        ensures
            r@ == self@.heartbeat_address,
    {
        self.heartbeat_address.as_str()
    }

    /// The address on which peers register.
    pub fn status_port_address(&self) -> (r: &str)
        ensures
            r@ == self@.status_port_address,
    {
        self.status_port_address.as_str()
    }

    /// The address of heartbeat acknowledgements.
    pub fn status_heartbeat_address(&self) -> (r: &str)
        ensures
            r@ == self@.status_heartbeat_address,
    {
        self.status_heartbeat_address.as_str()
    }

    /// The router.
    pub fn router(&self) -> (r: &HapticRouter)
        ensures
            r@ == self@.router,
    {
        &self.router
    }

    /// Reports a heartbeat timeout once; see [`HapticRouter::take_timeout`].
    pub fn take_timeout(&mut self, now: u64) -> (r: bool)
        requires
            runtime_wf(old(self)@),
        ensures
            runtime_wf(final(self)@),
            (final(self)@.router, r) == take_timeout_spec(old(self)@.router, now),
            final(self)@.registry == old(self)@.registry,
            final(self)@.heartbeat_address == old(self)@.heartbeat_address,
            final(self)@.status_port_address == old(self)@.status_port_address,
            final(self)@.status_heartbeat_address == old(self)@.status_heartbeat_address,
    {
        let r = self.router.take_timeout(now);
        r
    }

    /// Applies every registration of a batch, in arrival order, and returns
    /// the `(peer, target)` pairs that were new.
    pub fn register_batch(&mut self, packets: &Vec<ReceivedPacket<PeerAddress>>) -> (added: Vec<(PeerAddress, PeerAddress)>)
        requires
            runtime_wf(old(self)@),
        ensures
            runtime_wf(final(self)@),
            (final(self)@.registry, added@) == register_all_spec(
                old(self)@.registry,
                entries_of(packets@),
                old(self)@.status_port_address,
            ),
            final(self)@.router == old(self)@.router,
            final(self)@.heartbeat_address == old(self)@.heartbeat_address,
            final(self)@.status_port_address == old(self)@.status_port_address,
            final(self)@.status_heartbeat_address == old(self)@.status_heartbeat_address,
    {
        let ghost entries = entries_of(packets@);
        let ghost start = self@;
        let mut added: Vec<(PeerAddress, PeerAddress)> = Vec::new();
        let mut i: usize = 0;
        while i < packets.len()
            invariant
                i <= packets@.len(),
                entries == entries_of(packets@),
                runtime_wf(self@),
                self@.router == start.router,
                self@.heartbeat_address == start.heartbeat_address,
                self@.status_port_address == start.status_port_address,
                self@.status_heartbeat_address == start.status_heartbeat_address,
                (self@.registry, added@) == register_all_spec(
                    start.registry,
                    entries.subrange(0, i as int),
                    start.status_port_address,
                ),
            decreases packets@.len() - i,
        {
            let received = &packets[i];
            assert(entries.subrange(0, i + 1).drop_last() =~= entries.subrange(0, i as int));
            assert(entries.subrange(0, i + 1).last() == received.entry());
            if received.packet.address == self.status_port_address {
                let ghost args = args_model(received.packet.arguments@);
                let new = self.registry.register(&received.packet, received.peer);
                if new {
                    let port = match received.packet.arguments[0] {
                        OscArgument::Int(p) => p,
                        _ => 0,
                    };
                    assert(registration_port(args) == Some(port as u16));
                    added.push((received.peer, PeerAddress { ip: received.peer.ip, port: port as u16, flowinfo: 0, scope_id: 0 }));
                }
            }
            i = i + 1;
        }
        assert(entries.subrange(0, packets@.len() as int) =~= entries);
        added
    }

    /// Routes one packet received at `now` from `peer` and says how to
    /// acknowledge it: a heartbeat is acknowledged to every target registered
    /// on the sender's IP with the same sequence number.
    pub fn handle_packet(&mut self, packet: &OscPacket, peer: PeerAddress, now: u64) -> (r: (Option<HapticEvent>, Acknowledgement))
        requires
            runtime_wf(old(self)@),
        ensures
            runtime_wf(final(self)@),
            (final(self)@.router, r.0) == route_spec(old(self)@.router, packet.address@, args_model(packet.arguments@), now),
            final(self)@.heartbeat_address == old(self)@.heartbeat_address,
            final(self)@.status_port_address == old(self)@.status_port_address,
            final(self)@.status_heartbeat_address == old(self)@.status_heartbeat_address,
            final(self)@.registry.targets == old(self)@.registry.targets,
            match heartbeat_sequence_spec(old(self)@.heartbeat_address, packet.address@, args_model(packet.arguments@)) {
                None => r.1 is NotHeartbeat && final(self)@.registry == old(self)@.registry,
                Some(sequence) => if on_ip(old(self)@.registry.targets, peer.ip).len() == 0 {
                    &&& r.1 == Acknowledgement::Unregistered { first: !old(self)@.registry.unregistered.contains(peer) }
                    &&& final(self)@.registry.unregistered == (if old(self)@.registry.unregistered.contains(peer) {
                        old(self)@.registry.unregistered
                    } else {
                        old(self)@.registry.unregistered.push(peer)
                    })
                } else {
                    &&& final(self)@.registry == old(self)@.registry
                    &&& r.1 matches Acknowledgement::Send { reply, targets }
                    &&& reply@ == int_message_spec(old(self)@.status_heartbeat_address, sequence)
                    &&& targets@ == on_ip(old(self)@.registry.targets, peer.ip)
                },
            },
    {
        let ghost args = args_model(packet.arguments@);
        let sequence = if packet.address == self.heartbeat_address && packet.arguments.len() == 1 {
            match packet.arguments[0] {
                OscArgument::Int(s) => Some(s),
                _ => None,
            }
        } else {
            None
        };
        assert(sequence == heartbeat_sequence_spec(self@.heartbeat_address, packet.address@, args));
        let event = self.router.route_packet(packet, now);
        let ack = match sequence {
            None => Acknowledgement::NotHeartbeat,
            Some(s) => match self.registry.targets_for(peer) {
                None => {
                    let first = self.registry.note_unregistered(peer);
                    Acknowledgement::Unregistered { first }
                },
                Some(targets) => {
                    match encode_int_message(self.status_heartbeat_address.as_str(), s) {
                        Ok(reply) => Acknowledgement::Send { reply, targets },
                        Err(_) => Acknowledgement::NotHeartbeat,
                    }
                },
            },
        };
        (event, ack)
    }

    /// Drops acknowledgement targets that could not be reached.
    pub fn targets_failed(&mut self, failed: &Vec<PeerAddress>)
        requires
            runtime_wf(old(self)@),
        ensures
            runtime_wf(final(self)@),
            final(self)@.router == old(self)@.router,
            final(self)@.registry.unregistered == old(self)@.registry.unregistered,
            forall|a: PeerAddress| final(self)@.registry.targets.contains(a)
                <==> (old(self)@.registry.targets.contains(a) && !failed@.contains(a)),
            final(self)@.heartbeat_address == old(self)@.heartbeat_address,
            final(self)@.status_port_address == old(self)@.status_port_address,
            final(self)@.status_heartbeat_address == old(self)@.status_heartbeat_address,
    {
        let ghost before = self.registry@;
        self.registry.remove_targets(failed);
        proof {
            lemma_retain(before.targets, |a: PeerAddress| !failed@.contains(a));
        }
    }

    /// Clears every registration after the socket reported a closed port;
    /// returns how many targets were dropped.
    pub fn reset_status_targets(&mut self) -> (removed: usize)
        requires
            runtime_wf(old(self)@),
        ensures
            runtime_wf(final(self)@),
            removed == old(self)@.registry.targets.len(),
            final(self)@.registry.targets.len() == 0,
            final(self)@.registry.unregistered == old(self)@.registry.unregistered,
            final(self)@.router == old(self)@.router,
            final(self)@.heartbeat_address == old(self)@.heartbeat_address,
            final(self)@.status_port_address == old(self)@.status_port_address,
            final(self)@.status_heartbeat_address == old(self)@.status_heartbeat_address,
    {
        self.registry.reset()
    }
}

} // verus!
