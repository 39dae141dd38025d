//! Registration of status acknowledgement targets.
//!
//! A peer registers a UDP port on its own IP address; heartbeats from that IP
//! are then acknowledged to every registered port. Heartbeat senders without
//! a registration are remembered once, so they are reported once.
use vstd::prelude::*;

use crate::osc::{args_model, ArgModel, OscArgument, OscPacket};

verus! {

/// An IP address: version 4 as a 32-bit number, version 6 as a 128-bit number.
#[derive(Debug, Clone, Copy, PartialEq, Eq, Structural)]
pub enum IpKey {
    V4(u32),
    V6(u128),
}

/// A socket address. Version 6 addresses carry their flow label and scope;
/// version 4 addresses have both at zero.
#[derive(Debug, Clone, Copy, PartialEq, Eq, Structural)]
pub struct PeerAddress {
    pub ip: IpKey,
    pub port: u16,
    pub flowinfo: u32,
    pub scope_id: u32,
}

/// The registered targets and the heartbeat senders known to be unregistered.
#[derive(Debug)]
pub struct StatusRegistry {
    targets: Vec<PeerAddress>,
    unregistered: Vec<PeerAddress>,
}

/// The state of a registry.
pub struct RegistryModel {
    pub targets: Seq<PeerAddress>,
    pub unregistered: Seq<PeerAddress>,
}

impl View for StatusRegistry {
    type V = RegistryModel;

    closed spec fn view(&self) -> RegistryModel {
        RegistryModel { targets: self.targets@, unregistered: self.unregistered@ }
    }
}

/// The port a registration packet announces: one integer in `1..=65535`.
pub open spec fn registration_port(args: Seq<ArgModel>) -> Option<u16> {
    if args.len() == 1 && args[0] is Int && 1 <= args[0]->Int_0 <= 65535 {
        Some(args[0]->Int_0 as u16)
    } else {
        None
    }
}

/// The elements of `s` that satisfy `keep`, in order.
pub open spec fn retain_spec(s: Seq<PeerAddress>, keep: spec_fn(PeerAddress) -> bool) -> Seq<PeerAddress>
    decreases s.len(),
{
    if s.len() == 0 {
        s
    } else if keep(s.last()) {
        retain_spec(s.drop_last(), keep).push(s.last())
    } else {
        retain_spec(s.drop_last(), keep)
    }
}

/// `s` without the addresses on `ip`.
pub open spec fn without_ip(s: Seq<PeerAddress>, ip: IpKey) -> Seq<PeerAddress> {
    retain_spec(s, |a: PeerAddress| a.ip != ip)
}

/// The addresses of `s` on `ip`, in order.
pub open spec fn on_ip(s: Seq<PeerAddress>, ip: IpKey) -> Seq<PeerAddress>
    decreases s.len(),
{
    if s.len() == 0 {
        s
    } else if s.last().ip == ip {
        on_ip(s.drop_last(), ip).push(s.last())
    } else {
        on_ip(s.drop_last(), ip)
    }
}

/// The target a registration from `peer` for `port` adds.
pub open spec fn target_of(peer: PeerAddress, port: u16) -> PeerAddress {
    PeerAddress { ip: peer.ip, port, flowinfo: 0, scope_id: 0 }
}

/// What a registration packet from `peer` does: the next state, and whether a
/// new target was added.
pub open spec fn register_spec(m: RegistryModel, args: Seq<ArgModel>, peer: PeerAddress) -> (RegistryModel, bool) {
    match registration_port(args) {
        None => (m, false),
        Some(port) => {
            let target = target_of(peer, port);
            if m.targets.contains(target) {
                (m, false)
            } else {
                (
                    RegistryModel { targets: m.targets.push(target), unregistered: without_ip(m.unregistered, peer.ip) },
                    true,
                )
            }
        },
    }
}

/// True when the registry has no repeated entries.
pub open spec fn registry_wf(m: RegistryModel) -> bool {
    m.targets.no_duplicates() && m.unregistered.no_duplicates()
}

/// Retaining keeps exactly the elements of `s` that satisfy `keep`, and
/// repeats none when `s` repeats none.
pub proof fn lemma_retain(s: Seq<PeerAddress>, keep: spec_fn(PeerAddress) -> bool)
    ensures
        forall|a: PeerAddress| #[trigger] retain_spec(s, keep).contains(a) <==> (s.contains(a) && keep(a)),
        s.no_duplicates() ==> retain_spec(s, keep).no_duplicates(),
    decreases s.len(),
{
    if s.len() > 0 {
        let d = s.drop_last();
        let x = s.last();
        lemma_retain(d, keep);
        let w = retain_spec(d, keep);
        assert forall|a: PeerAddress| #[trigger] retain_spec(s, keep).contains(a) <==> (s.contains(a) && keep(a)) by {
            if s.contains(a) {
                let k = choose|k: int| 0 <= k < s.len() && s[k] == a;
                if k < s.len() - 1 {
                    assert(d[k] == a);
                }
            }
            if d.contains(a) {
                let k = choose|k: int| 0 <= k < d.len() && d[k] == a;
                assert(s[k] == a);
            }
            assert(s[s.len() - 1] == x);
            if keep(x) {
                let v = w.push(x);
                if v.contains(a) {
                    let k = choose|k: int| 0 <= k < v.len() && v[k] == a;
                    if k < w.len() {
                        assert(w[k] == a);
                    }
                }
                if w.contains(a) {
                    let k = choose|k: int| 0 <= k < w.len() && w[k] == a;
                    assert(v[k] == a);
                }
                assert(v[w.len() as int] == x);
            }
        }
        if s.no_duplicates() {
            assert(d.no_duplicates()) by {
                assert forall|i: int, j: int| 0 <= i < d.len() && 0 <= j < d.len() && i != j implies d[i] != d[j] by {
                    assert(d[i] == s[i] && d[j] == s[j]);
                }
            }
            if keep(x) {
                assert(!w.contains(x)) by {
                    if d.contains(x) {
                        let k = choose|k: int| 0 <= k < d.len() && d[k] == x;
                        assert(s[k] == s[s.len() - 1]);
                    }
                }
                let v = w.push(x);
                assert forall|i: int, j: int| 0 <= i < v.len() && 0 <= j < v.len() && i != j implies v[i] != v[j] by {
                    if i < w.len() && j < w.len() {
                        assert(v[i] == w[i] && v[j] == w[j]);
                    } else if i < w.len() {
                        assert(v[i] == w[i]);
                    } else if j < w.len() {
                        assert(v[j] == w[j]);
                    }
                }
            }
        }
    }
}

/// The addresses on `ip` are those that pass the filter on `ip`.
pub proof fn lemma_on_ip_contains(s: Seq<PeerAddress>, ip: IpKey, a: PeerAddress)
    ensures
        on_ip(s, ip).contains(a) <==> (s.contains(a) && a.ip == ip),
    decreases s.len(),
{
    if s.len() > 0 {
        let d = s.drop_last();
        lemma_on_ip_contains(d, ip, a);
        let w = on_ip(d, ip);
        if s.contains(a) {
            let k = choose|k: int| 0 <= k < s.len() && s[k] == a;
            if k < s.len() - 1 {
                assert(d[k] == a);
            }
        }
        if d.contains(a) {
            let k = choose|k: int| 0 <= k < d.len() && d[k] == a;
            assert(s[k] == a);
        }
        if s.last().ip == ip {
            let v = w.push(s.last());
            if v.contains(a) {
                let k = choose|k: int| 0 <= k < v.len() && v[k] == a;
                if k < w.len() {
                    assert(w[k] == a);
                }
            }
            if w.contains(a) {
                let k = choose|k: int| 0 <= k < w.len() && w[k] == a;
                assert(v[k] == a);
            }
            assert(v[w.len() as int] == s.last());
        }
    }
}

/// After a registration from `peer`, a heartbeat from any sender on the
/// peer's IP is acknowledged to the registered port; a new registration also
/// leaves no sender on that IP recorded as unregistered.
pub proof fn lemma_registration_enables_acknowledgement(
    m: RegistryModel,
    args: Seq<ArgModel>,
    peer: PeerAddress,
    sender: PeerAddress,
)
    requires
        registration_port(args) is Some,
        sender.ip == peer.ip,
    ensures
        on_ip(register_spec(m, args, peer).0.targets, sender.ip).contains(target_of(peer, registration_port(args)->Some_0)),
        register_spec(m, args, peer).1 ==> forall|a: PeerAddress|
            #[trigger] register_spec(m, args, peer).0.unregistered.contains(a) ==> a.ip != peer.ip,
{
    let target = target_of(peer, registration_port(args)->Some_0);
    let next = register_spec(m, args, peer).0;
    assert(next.targets.contains(target)) by {
        if !m.targets.contains(target) {
            assert(next.targets[m.targets.len() as int] == target);
        }
    }
    lemma_on_ip_contains(next.targets, sender.ip, target);
    lemma_retain(m.unregistered, |a: PeerAddress| a.ip != peer.ip);
}

/// What noting a heartbeat sender without a target does: it is remembered,
/// and reported only when it was not remembered yet.
pub open spec fn note_unregistered_spec(m: RegistryModel, peer: PeerAddress) -> (RegistryModel, bool) {
    if m.unregistered.contains(peer) {
        (m, false)
    } else {
        (RegistryModel { unregistered: m.unregistered.push(peer), ..m }, true)
    }
}

/// A heartbeat sender without a target is reported once: noting it again
/// reports nothing, until a new registration from its IP forgets it, after
/// which it is reported again.
pub proof fn lemma_unregistered_reported_once(m: RegistryModel, peer: PeerAddress, args: Seq<ArgModel>, registrant: PeerAddress)
    requires
        registrant.ip == peer.ip,
    ensures
        !note_unregistered_spec(note_unregistered_spec(m, peer).0, peer).1,
        ({
            let noted = note_unregistered_spec(m, peer).0;
            register_spec(noted, args, registrant).1 ==> note_unregistered_spec(register_spec(noted, args, registrant).0, peer).1
        }),
{
    let next = note_unregistered_spec(m, peer).0;
    if !m.unregistered.contains(peer) {
        assert(next.unregistered[m.unregistered.len() as int] == peer);
    }
    if register_spec(next, args, registrant).1 {
        lemma_retain(next.unregistered, |a: PeerAddress| a.ip != registrant.ip);
    }
}

impl StatusRegistry {
    /// A registry with nothing registered.
    pub fn new() -> (r: Self)
        ensures
            r@.targets.len() == 0,
            r@.unregistered.len() == 0,
            registry_wf(r@),
    {
        StatusRegistry { targets: Vec::new(), unregistered: Vec::new() }
    }

    /// Takes a registration packet from `peer`: one integer port in
    /// `1..=65535` registers that port on the peer's IP, and forgets that the
    /// IP's heartbeat senders were unregistered. True when the target is new.
    pub fn register(&mut self, packet: &OscPacket, peer: PeerAddress) -> (r: bool)
        requires
            registry_wf(old(self)@),
        ensures
            registry_wf(final(self)@),
            (final(self)@, r) == register_spec(old(self)@, args_model(packet.arguments@), peer),
    {
        if packet.arguments.len() != 1 {
            return false;
        }
        let port = match packet.arguments[0] {
            OscArgument::Int(p) => p,
            _ => return false,
        };
        if !(1 <= port && port <= 65535) {
            return false;
        }
        let target = PeerAddress { ip: peer.ip, port: port as u16, flowinfo: 0, scope_id: 0 };
        assert(registration_port(args_model(packet.arguments@)) == Some(port as u16));
        let mut i: usize = 0;
        while i < self.targets.len()
            invariant
                i <= self.targets@.len(),
                self@ == old(self)@,
                registry_wf(old(self)@),
                registration_port(args_model(packet.arguments@)) == Some(target.port),
                target == target_of(peer, target.port),
                forall|k: int| 0 <= k < i ==> self.targets@[k] != target,
            decreases self.targets@.len() - i,
        {
            if self.targets[i] == target {
                assert(self.targets@.contains(target));
                return false;
            }
            i = i + 1;
        }
        assert(!self@.targets.contains(target));
        let ghost old_unregistered = self.unregistered@;
        let mut kept: Vec<PeerAddress> = Vec::new();
        let mut j: usize = 0;
        while j < self.unregistered.len()
            invariant
                j <= self.unregistered@.len(),
                self.unregistered@ == old_unregistered,
                kept@ == without_ip(old_unregistered.subrange(0, j as int), peer.ip),
            decreases self.unregistered@.len() - j,
        {
            let p = self.unregistered[j];
            assert(old_unregistered.subrange(0, j + 1).drop_last() =~= old_unregistered.subrange(0, j as int));
            if p.ip != peer.ip {
                kept.push(p);
            }
            j = j + 1;
        }
        assert(old_unregistered.subrange(0, old_unregistered.len() as int) =~= old_unregistered);
        proof {
            lemma_retain(old_unregistered, |a: PeerAddress| a.ip != peer.ip);
            assert(!self@.targets.contains(target));
            assert(self@.targets.push(target).no_duplicates()) by {
                let v = self@.targets.push(target);
                assert forall|x: int, y: int| 0 <= x < v.len() && 0 <= y < v.len() && x != y implies v[x] != v[y] by {
                    if x < v.len() - 1 && y < v.len() - 1 {
                        assert(v[x] == self@.targets[x] && v[y] == self@.targets[y]);
                    } else if x < v.len() - 1 {
                        assert(v[x] == self@.targets[x]);
                    } else if y < v.len() - 1 {
                        assert(v[y] == self@.targets[y]);
                    }
                }
            }
        }
        self.targets.push(target);
        self.unregistered = kept;
        true
    }

    /// The registered targets on the IP of a heartbeat sender, or `None` when
    /// that IP registered none.
    pub fn targets_for(&self, peer: PeerAddress) -> (r: Option<Vec<PeerAddress>>)
        ensures
            on_ip(self@.targets, peer.ip).len() == 0 ==> r is None,
            on_ip(self@.targets, peer.ip).len() > 0 ==> (r matches Some(v) && v@ == on_ip(self@.targets, peer.ip)),
    {
        let mut found: Vec<PeerAddress> = Vec::new();
        let mut i: usize = 0;
        while i < self.targets.len()
            invariant
                i <= self.targets@.len(),
                found@ == on_ip(self@.targets.subrange(0, i as int), peer.ip),
            decreases self.targets@.len() - i,
        {
            assert(self@.targets.subrange(0, i + 1).drop_last() =~= self@.targets.subrange(0, i as int));
            if self.targets[i].ip == peer.ip {
                found.push(self.targets[i]);
            }
            i = i + 1;
        }
        assert(self@.targets.subrange(0, self@.targets.len() as int) =~= self@.targets);
        if found.len() == 0 {
            None
        } else {
            Some(found)
        }
    }

    /// Remembers a heartbeat sender that has no target; true the first time.
    pub fn note_unregistered(&mut self, peer: PeerAddress) -> (r: bool)
        requires
            registry_wf(old(self)@),
        ensures
            registry_wf(final(self)@),
            (final(self)@, r) == note_unregistered_spec(old(self)@, peer),
    {
        let mut i: usize = 0;
        while i < self.unregistered.len()
            invariant
                i <= self.unregistered@.len(),
                self@ == old(self)@,
                registry_wf(old(self)@),
                forall|k: int| 0 <= k < i ==> self.unregistered@[k] != peer,
            decreases self.unregistered@.len() - i,
        {
            if self.unregistered[i] == peer {
                assert(self@.unregistered.contains(peer));
                return false;
            }
            i = i + 1;
        }
        assert(!self@.unregistered.contains(peer));
        proof {
            let v = self@.unregistered.push(peer);
            assert forall|x: int, y: int| 0 <= x < v.len() && 0 <= y < v.len() && x != y implies v[x] != v[y] by {
                if x < v.len() - 1 && y < v.len() - 1 {
                    assert(v[x] == self@.unregistered[x] && v[y] == self@.unregistered[y]);
                } else if x < v.len() - 1 {
                    assert(v[x] == self@.unregistered[x]);
                } else if y < v.len() - 1 {
                    assert(v[y] == self@.unregistered[y]);
                }
            }
        }
        self.unregistered.push(peer);
        true
    }

    /// Drops targets that could not be reached.
    pub fn remove_targets(&mut self, failed: &Vec<PeerAddress>)
        requires
            registry_wf(old(self)@),
        ensures
            registry_wf(final(self)@),
            final(self)@.unregistered == old(self)@.unregistered,
            final(self)@.targets == retain_spec(old(self)@.targets, |a: PeerAddress| !failed@.contains(a)),
            forall|a: PeerAddress| final(self)@.targets.contains(a) <==> (old(self)@.targets.contains(a) && !failed@.contains(a)),
    {
        let ghost keep = |a: PeerAddress| !failed@.contains(a);
        let mut kept: Vec<PeerAddress> = Vec::new();
        let mut i: usize = 0;
        while i < self.targets.len()
            invariant
                i <= self.targets@.len(),
                keep == (|a: PeerAddress| !failed@.contains(a)),
                kept@ == retain_spec(self@.targets.subrange(0, i as int), keep),
            decreases self.targets@.len() - i,
        {
            let t = self.targets[i];
            assert(self@.targets.subrange(0, i + 1).drop_last() =~= self@.targets.subrange(0, i as int));
            let mut gone = false;
            let mut j: usize = 0;
            while j < failed.len()
                invariant
                    j <= failed@.len(),
                    gone == (exists|k: int| 0 <= k < j && failed@[k] == t),
                decreases failed@.len() - j,
            {
                if failed[j] == t {
                    gone = true;
                }
                j = j + 1;
            }
            assert(gone == failed@.contains(t));
            if !gone {
                kept.push(t);
            }
            i = i + 1;
        }
        assert(self@.targets.subrange(0, self@.targets.len() as int) =~= self@.targets);
        proof {
            lemma_retain(self@.targets, keep);
        }
        self.targets = kept;
    }

    /// Clears every registration after the socket reported a closed port;
    /// returns how many targets were dropped.
    pub fn reset(&mut self) -> (removed: usize)
        ensures
            removed == old(self)@.targets.len(),
            final(self)@.targets.len() == 0,
            final(self)@.unregistered == old(self)@.unregistered,
            registry_wf(old(self)@) ==> registry_wf(final(self)@),
    {
        let removed = self.targets.len();
        self.targets = Vec::new();
        removed
    }
}

} // verus!
