//! Routing of OSC packets to sensation updates and heartbeat tracking.
//!
//! Times are monotonic nanosecond counts; durations are nanoseconds.
use vstd::prelude::*;
use vstd::string::StringExecFns;

use crate::osc::{args_model, ArgModel, OscArgument, OscPacket};
use crate::sensation::{SensationPoint, SensationState};
use crate::text::{chars_eq, chars_of, sub_chars};

verus! {

broadcast use vstd::string::group_string_axioms;

/// The side a channel drives.
#[derive(Debug, Clone, Copy, PartialEq, Eq, Structural)]
pub enum Target {
    Left,
    Right,
}

/// The kind of sensation a channel carries.
#[derive(Debug, Clone, Copy, PartialEq, Eq, Structural)]
pub enum Sensation {
    Force,
    Vibration,
    Pain,
}

/// What a routed packet changed.
#[derive(Debug, Clone, Copy, PartialEq, Eq, Structural)]
pub enum HapticEvent {
    /// A sensation value was stored; `value` is the stored float bit pattern.
    Sensation { target: Target, sensation: Sensation, value: u32 },
    /// A heartbeat arrived after the previous one had expired (or none had come).
    HeartbeatRestored,
}

/// True when the bit pattern is a finite float (not infinite, not NaN).
pub open spec fn is_finite_bits(bits: u32) -> bool {
    (bits / 0x80_0000) % 256 != 255
}

/// The bit pattern of a finite float clamped to `0.0..=1.0`; `-0.0` is kept,
/// as float clamping keeps it.
pub open spec fn clamp_unit_bits(bits: u32) -> u32 {
    if bits > 0x8000_0000 {
        0
    } else if bits == 0x8000_0000 {
        0x8000_0000
    } else if bits > 0x3f80_0000 {
        0x3f80_0000
    } else {
        bits
    }
}

/// True when the bit pattern is a float in `0.0..=1.0` (`-0.0` included).
pub open spec fn is_unit_bits(bits: u32) -> bool {
    bits <= 0x3f80_0000 || bits == 0x8000_0000
}

/// True when every stored intensity lies in the unit interval.
pub open spec fn state_in_unit(s: SensationState) -> bool {
    &&& is_unit_bits(s.left.force) && is_unit_bits(s.left.vibration) && is_unit_bits(s.left.pain)
    &&& is_unit_bits(s.right.force) && is_unit_bits(s.right.vibration) && is_unit_bits(s.right.pain)
}

/// The abstract state of a router.
pub struct RouterModel {
    pub heartbeat_address: Seq<char>,
    pub channel_prefix: Seq<char>,
    pub heartbeat_timeout: u64,
    pub targets: Seq<(Seq<char>, Target)>,
    pub last_heartbeat: Option<u64>,
    pub state: SensationState,
    pub timed_out: bool,
}

/// The target bound to `name`; a later binding of the same name wins.
pub open spec fn lookup_target(targets: Seq<(Seq<char>, Target)>, name: Seq<char>) -> Option<Target>
    decreases targets.len(),
{
    if targets.len() == 0 {
        None
    } else if targets.last().0 == name {
        Some(targets.last().1)
    } else {
        lookup_target(targets.drop_last(), name)
    }
}

/// The index of the first `c` in `s`, if any.
pub open spec fn index_of(s: Seq<char>, c: char) -> Option<int>
    decreases s.len(),
{
    if s.len() == 0 {
        None
    } else if s[0] == c {
        Some(0)
    } else {
        match index_of(s.drop_first(), c) {
            Some(k) => Some(k + 1),
            None => None,
        }
    }
}

/// The sensation named by a path segment.
pub open spec fn sensation_named(name: Seq<char>) -> Option<Sensation> {
    if name == "force"@ {
        Some(Sensation::Force)
    } else if name == "vibration"@ {
        Some(Sensation::Vibration)
    } else if name == "pain"@ {
        Some(Sensation::Pain)
    } else {
        None
    }
}

/// The base path of a namespace: `/avatar/parameters/<namespace>`.
pub open spec fn namespace_base(namespace: Seq<char>) -> Seq<char> {
    "/avatar/parameters/"@ + namespace
}

/// The heartbeat address of a namespace.
pub open spec fn heartbeat_address_of(namespace: Seq<char>) -> Seq<char> {
    namespace_base(namespace) + "/heartbeat"@
}

/// The prefix of every channel address of a namespace.
pub open spec fn channel_prefix_of(namespace: Seq<char>) -> Seq<char> {
    namespace_base(namespace) + "/channel/"@
}

/// True while the last heartbeat is younger than the timeout.
pub open spec fn heartbeat_valid_spec(m: RouterModel, now: u64) -> bool {
    match m.last_heartbeat {
        Some(received) => (if now >= received { now - received } else { 0 }) < m.heartbeat_timeout,
        None => false,
    }
}

/// The channel and sensation a channel address names, once the prefix is removed:
/// exactly one `/` must separate a channel name from a sensation name.
pub open spec fn split_channel(relative: Seq<char>) -> Option<(Seq<char>, Seq<char>)> {
    match index_of(relative, '/') {
        None => None,
        Some(k) => {
            let name = relative.subrange(k + 1, relative.len() as int);
            if index_of(name, '/') is Some {
                None
            } else {
                Some((relative.subrange(0, k), name))
            }
        },
    }
}

/// The point of one side.
pub open spec fn point_of(s: SensationState, target: Target) -> SensationPoint {
    match target {
        Target::Left => s.left,
        Target::Right => s.right,
    }
}

/// `s` with one sensation of one side set to `value`.
pub open spec fn with_value(s: SensationState, target: Target, sensation: Sensation, value: u32) -> SensationState {
    let p = point_of(s, target);
    let q = match sensation {
        Sensation::Force => SensationPoint { force: value, ..p },
        Sensation::Vibration => SensationPoint { vibration: value, ..p },
        Sensation::Pain => SensationPoint { pain: value, ..p },
    };
    match target {
        Target::Left => SensationState { left: q, ..s },
        Target::Right => SensationState { right: q, ..s },
    }
}

/// What routing a packet with this address and these arguments at `now` does:
/// the next router state and the event it reports.
pub open spec fn route_spec(m: RouterModel, address: Seq<char>, args: Seq<ArgModel>, now: u64) -> (RouterModel, Option<HapticEvent>) {
    if address == m.heartbeat_address {
        if args.len() == 1 && args[0] is Int {
            let restored = !heartbeat_valid_spec(m, now);
            (
                RouterModel { last_heartbeat: Some(now), timed_out: false, ..m },
                if restored { Some(HapticEvent::HeartbeatRestored) } else { None },
            )
        } else {
            (m, None)
        }
    } else if !m.channel_prefix.is_prefix_of(address) {
        (m, None)
    } else {
        match split_channel(address.subrange(m.channel_prefix.len() as int, address.len() as int)) {
            None => (m, None),
            Some((channel, name)) => match (lookup_target(m.targets, channel), sensation_named(name)) {
                (Some(target), Some(sensation)) => if args.len() == 1 && args[0] is Float
                    && is_finite_bits(args[0]->Float_0) {
                    let value = clamp_unit_bits(args[0]->Float_0);
                    (
                        RouterModel { state: with_value(m.state, target, sensation, value), ..m },
                        Some(HapticEvent::Sensation { target, sensation, value }),
                    )
                } else {
                    (m, None)
                },
                _ => (m, None),
            },
        }
    }
}

/// What checking for a timeout at `now` does: the next state and whether a
/// timeout is reported.
pub open spec fn take_timeout_spec(m: RouterModel, now: u64) -> (RouterModel, bool) {
    if !m.timed_out && !heartbeat_valid_spec(m, now) {
        (RouterModel { timed_out: true, ..m }, true)
    } else {
        (m, false)
    }
}

/// Routes OSC packets of one namespace to sensation state.
#[derive(Debug)]
pub struct HapticRouter {
    heartbeat_address: Vec<char>,
    channel_prefix: Vec<char>,
    heartbeat_timeout: u64,
    targets: Vec<(Vec<char>, Target)>,
    last_heartbeat: Option<u64>,
    state: SensationState,
    timed_out: bool,
}

impl View for HapticRouter {
    type V = RouterModel;

    closed spec fn view(&self) -> RouterModel {
        RouterModel {
            heartbeat_address: self.heartbeat_address@,
            channel_prefix: self.channel_prefix@,
            heartbeat_timeout: self.heartbeat_timeout,
            targets: self.targets@.map_values(|t: (Vec<char>, Target)| (t.0@, t.1)),
            last_heartbeat: self.last_heartbeat,
            state: self.state,
            timed_out: self.timed_out,
        }
    }
}

/// The index of the first `c` at or after `from`, as an index into `v`.
fn find_char(v: &Vec<char>, from: usize, c: char) -> (r: Option<usize>)
    requires
        from <= v@.len(),
    ensures
        r matches Some(k) ==> from <= k < v@.len()
            && index_of(v@.subrange(from as int, v@.len() as int), c) == Some(k - from),
        r is None ==> index_of(v@.subrange(from as int, v@.len() as int), c) is None,
{
    let ghost n = v@.len() as int;
    let mut i = from;
    while i < v.len()
        invariant
            from <= i <= v@.len(),
            n == v@.len(),
            index_of(v@.subrange(from as int, n), c) == (match index_of(v@.subrange(i as int, n), c) {
                Some(k) => Some(k + i - from),
                None => None::<int>,
            }),
        decreases v@.len() - i,
    {
        assert(v@.subrange(i as int, n).drop_first() =~= v@.subrange(i + 1, n));
        if v[i] == c {
            return Some(i);
        }
        i = i + 1;
    }
    None
}

impl HapticRouter {
    /// A router for `namespace` whose channel names map to the given targets.
    pub fn new(namespace: &str, heartbeat_timeout: u64, targets: Vec<(String, Target)>) -> (r: Self)
        ensures
            r@.heartbeat_address == heartbeat_address_of(namespace@),
            r@.channel_prefix == channel_prefix_of(namespace@),
            r@.heartbeat_timeout == heartbeat_timeout,
            r@.targets == targets@.map_values(|t: (String, Target)| (t.0@, t.1)),
            r@.last_heartbeat is None,
            r@.state == SensationState::default_spec(),
            r@.timed_out,
    {
        let mut base = "/avatar/parameters/".to_owned();
        base.append(namespace);
        let mut heartbeat = base.clone();
        heartbeat.append("/heartbeat");
        let mut prefix = base.clone();
        prefix.append("/channel/");
        let mut bindings: Vec<(Vec<char>, Target)> = Vec::new();
        let mut i: usize = 0;
        while i < targets.len()
            invariant
                i <= targets@.len(),
                bindings@.len() == i,
                forall|j: int| 0 <= j < i ==> #[trigger] bindings@[j].0@ == targets@[j].0@
                    && bindings@[j].1 == targets@[j].1,
            decreases targets@.len() - i,
        {
            let name = chars_of(targets[i].0.as_str());
            bindings.push((name, targets[i].1));
            i = i + 1;
        }
        assert(bindings@.map_values(|t: (Vec<char>, Target)| (t.0@, t.1))
            =~= targets@.map_values(|t: (String, Target)| (t.0@, t.1)));
        HapticRouter {
            heartbeat_address: chars_of(heartbeat.as_str()),
            channel_prefix: chars_of(prefix.as_str()),
            heartbeat_timeout,
            targets: bindings,
            last_heartbeat: None,
            state: SensationState::default(),
            timed_out: true,
        }
    }

    /// True while the last heartbeat is younger than the timeout.
    pub fn heartbeat_valid(&self, now: u64) -> (r: bool)
        ensures
            r == heartbeat_valid_spec(self@, now),
    {
        match self.last_heartbeat {
            Some(received) => {
                let age = if now >= received { now - received } else { 0 };
                age < self.heartbeat_timeout
            },
            None => false,
        }
    }

    /// Reports a timeout once: true the first time the heartbeat is found
    /// expired after it was last valid.
    pub fn take_timeout(&mut self, now: u64) -> (r: bool)
        ensures
            (final(self)@, r) == take_timeout_spec(old(self)@, now),
    {
        if !self.timed_out && !self.heartbeat_valid(now) {
            self.timed_out = true;
            return true;
        }
        false
    }

    /// The latest requested sensation values.
    pub fn state(&self) -> (s: SensationState)
        ensures
            s == self@.state,
    {
        self.state
    }

    /// The target bound to a channel name.
    fn lookup(&self, name: &Vec<char>) -> (r: Option<Target>)
        ensures
            r == lookup_target(self@.targets, name@),
    {
        let ghost all = self@.targets;
        assert(all.subrange(0, all.len() as int) =~= all);
        let mut i = self.targets.len();
        while i > 0
            invariant
                i <= self.targets@.len(),
                all == self@.targets,
                lookup_target(all, name@) == lookup_target(all.subrange(0, i as int), name@),
            decreases i,
        {
            assert(all.subrange(0, i as int).drop_last() =~= all.subrange(0, i - 1));
            if chars_eq(&self.targets[i - 1].0, name) {
                return Some(self.targets[i - 1].1);
            }
            i = i - 1;
        }
        None
    }

    /// Applies one packet received at `now`: a heartbeat refreshes liveness, a
    /// channel update stores its clamped value.
    pub fn route_packet(&mut self, packet: &OscPacket, now: u64) -> (r: Option<HapticEvent>)
        ensures
            (final(self)@, r) == route_spec(old(self)@, packet.address@, args_model(packet.arguments@), now),
    {
        let address = chars_of(packet.address.as_str());
        let ghost args = args_model(packet.arguments@);
        if chars_eq(&address, &self.heartbeat_address) {
            if !(packet.arguments.len() == 1 && matches!(packet.arguments[0], OscArgument::Int(_))) {
                return None;
            }
            let restored = !self.heartbeat_valid(now);
            self.last_heartbeat = Some(now);
            self.timed_out = false;
            return if restored { Some(HapticEvent::HeartbeatRestored) } else { None };
        }
        let plen = self.channel_prefix.len();
        if address.len() < plen {
            return None;
        }
        let head = sub_chars(&address, 0, plen);
        if !chars_eq(&head, &self.channel_prefix) {
            assert(!self@.channel_prefix.is_prefix_of(address@));
            return None;
        }
        assert(self@.channel_prefix.is_prefix_of(address@));
        let ghost relative = address@.subrange(plen as int, address@.len() as int);
        let slash = match find_char(&address, plen, '/') {
            Some(k) => k,
            None => return None,
        };
        assert(address@.subrange(slash + 1, address@.len() as int)
            =~= relative.subrange(slash - plen + 1, relative.len() as int));
        assert(index_of(relative, '/') == Some((slash - plen) as int));
        if find_char(&address, slash + 1, '/').is_some() {
            assert(split_channel(relative) is None);
            return None;
        }
        let channel = sub_chars(&address, plen, slash);
        assert(channel@ =~= relative.subrange(0, slash - plen));
        let name = sub_chars(&address, slash + 1, address.len());
        assert(name@ =~= relative.subrange(slash - plen + 1, relative.len() as int));
        assert(split_channel(relative) == Some((channel@, name@)));
        let target = match self.lookup(&channel) {
            Some(t) => t,
            None => return None,
        };
        let force = chars_of("force");
        let vibration = chars_of("vibration");
        let pain = chars_of("pain");
        let sensation = if chars_eq(&name, &force) {
            Sensation::Force
        } else if chars_eq(&name, &vibration) {
            Sensation::Vibration
        } else if chars_eq(&name, &pain) {
            Sensation::Pain
        } else {
            return None;
        };
        let raw = if packet.arguments.len() == 1 {
            match packet.arguments[0] {
                OscArgument::Float(bits) => bits,
                _ => return None,
            }
        } else {
            return None;
        };
        if (raw / 0x80_0000) % 256 == 255 {
            return None;
        }
        let value = if raw > 0x8000_0000 {
            0
        } else if raw == 0x8000_0000 {
            0x8000_0000
        } else if raw > 0x3f80_0000 {
            0x3f80_0000
        } else {
            raw
        };
        match target {
            Target::Left => match sensation {
                Sensation::Force => self.state.left.force = value,
                Sensation::Vibration => self.state.left.vibration = value,
                Sensation::Pain => self.state.left.pain = value,
            },
            Target::Right => match sensation {
                Sensation::Force => self.state.right.force = value,
                Sensation::Vibration => self.state.right.vibration = value,
                Sensation::Pain => self.state.right.pain = value,
            },
        }
        Some(HapticEvent::Sensation { target, sensation, value })
    }
}

/// Clamping a finite float bit pattern lands in the unit interval.
pub proof fn lemma_clamp_in_unit(bits: u32)
    ensures
        is_unit_bits(clamp_unit_bits(bits)),
{
}

/// Routing never stores a value outside `0.0..=1.0`: if every stored value was
/// in the unit interval before, every one is after, and a reported value is too.
pub proof fn lemma_route_keeps_unit_interval(m: RouterModel, address: Seq<char>, args: Seq<ArgModel>, now: u64)
    requires
        state_in_unit(m.state),
    ensures
        state_in_unit(route_spec(m, address, args, now).0.state),
        route_spec(m, address, args, now).1 matches Some(HapticEvent::Sensation { value, .. }) ==> is_unit_bits(value),
{
}

/// A timeout is reported once per expiry: right after one is reported, no
/// further check reports another, and packets other than heartbeats do not
/// re-arm it.
pub proof fn lemma_timeout_reported_once(m: RouterModel, t1: u64, t2: u64, address: Seq<char>, args: Seq<ArgModel>, now: u64)
    requires
        take_timeout_spec(m, t1).1,
        address != m.heartbeat_address,
    ensures
        !take_timeout_spec(take_timeout_spec(m, t1).0, t2).1,
        !take_timeout_spec(route_spec(take_timeout_spec(m, t1).0, address, args, now).0, t2).1,
{
}

/// A heartbeat (one integer argument) makes the link alive at the moment it is
/// received, for any positive timeout, and reports a restoration exactly when
/// the link was not alive before it.
pub proof fn lemma_heartbeat_restores(m: RouterModel, value: i32, now: u64)
    requires
        m.heartbeat_timeout > 0,
    ensures
        heartbeat_valid_spec(route_spec(m, m.heartbeat_address, seq![ArgModel::Int(value)], now).0, now),
        !route_spec(m, m.heartbeat_address, seq![ArgModel::Int(value)], now).0.timed_out,
        (route_spec(m, m.heartbeat_address, seq![ArgModel::Int(value)], now).1 == Some(HapticEvent::HeartbeatRestored))
            == !heartbeat_valid_spec(m, now),
        route_spec(m, m.heartbeat_address, seq![ArgModel::Int(value)], now).0.state == m.state,
{
}

/// A value routed to one sensation of one side leaves every other stored value
/// as it was.
pub proof fn lemma_route_changes_one_value(m: RouterModel, address: Seq<char>, args: Seq<ArgModel>, now: u64)
    ensures
        match route_spec(m, address, args, now).1 {
            Some(HapticEvent::Sensation { target, sensation, value }) =>
                route_spec(m, address, args, now).0.state == with_value(m.state, target, sensation, value),
            _ => route_spec(m, address, args, now).0.state == m.state,
        },
{
}

/// A text that starts with a part without `c` finds `c` first right after it.
proof fn lemma_index_of_after(p: Seq<char>, r: Seq<char>, c: char)
    requires
        forall|k: int| 0 <= k < p.len() ==> p[k] != c,
    ensures
        index_of(p + seq![c] + r, c) == Some(p.len() as int),
    decreases p.len(),
{
    let s = p + seq![c] + r;
    if p.len() == 0 {
        assert(s[0] == c);
    } else {
        assert(s[0] == p[0]);
        assert forall|k: int| 0 <= k < p.drop_first().len() implies p.drop_first()[k] != c by {
            assert(p.drop_first()[k] == p[k + 1]);
        }
        lemma_index_of_after(p.drop_first(), r, c);
        assert(s.drop_first() =~= p.drop_first() + seq![c] + r);
    }
}

/// A text without `c` has no index of `c`.
proof fn lemma_index_of_none(s: Seq<char>, c: char)
    requires
        forall|k: int| 0 <= k < s.len() ==> s[k] != c,
    ensures
        index_of(s, c) is None,
    decreases s.len(),
{
    if s.len() > 0 {
        assert forall|k: int| 0 <= k < s.drop_first().len() implies s.drop_first()[k] != c by {
            assert(s.drop_first()[k] == s[k + 1]);
        }
        lemma_index_of_none(s.drop_first(), c);
    }
}

/// The binding found for a name is its last binding.
proof fn lemma_lookup_last(targets: Seq<(Seq<char>, Target)>, name: Seq<char>, i: int)
    requires
        0 <= i < targets.len(),
        targets[i].0 == name,
        forall|j: int| i < j < targets.len() ==> targets[j].0 != name,
    ensures
        lookup_target(targets, name) == Some(targets[i].1),
    decreases targets.len(),
{
    if i < targets.len() - 1 {
        let d = targets.drop_last();
        assert(d[i] == targets[i]);
        assert forall|j: int| i < j < d.len() implies d[j].0 != name by {
            assert(d[j] == targets[j]);
        }
        lemma_lookup_last(d, name, i);
    }
}

/// Routing a finite float to `<channel prefix><channel>/<sensation>` changes
/// exactly one stored value: the named sensation of the side that the
/// channel's last binding names. The value stored is the float clamped to
/// `0.0..=1.0`: unchanged inside it, `1.0` above it, `0.0` below zero; the
/// other two sensations of that side and the whole other side stay as they
/// were, and the update is reported with the same side, sensation and value.
pub proof fn lemma_channel_update_sets_one_field(
    m: RouterModel,
    name: Seq<char>,
    i: int,
    word: Seq<char>,
    bits: u32,
    now: u64,
)
    requires
        0 <= i < m.targets.len(),
        m.targets[i].0 == name,
        forall|j: int| i < j < m.targets.len() ==> m.targets[j].0 != name,
        forall|k: int| 0 <= k < name.len() ==> name[k] != '/',
        word == "force"@ || word == "vibration"@ || word == "pain"@,
        m.channel_prefix + name + seq!['/'] + word != m.heartbeat_address,
        (bits / 0x80_0000) % 256 != 255,
    ensures
        ({
            let r = route_spec(m, m.channel_prefix + name + seq!['/'] + word, seq![ArgModel::Float(bits)], now);
            let before = m.state;
            let after = r.0.state;
            let side = m.targets[i].1;
            let (b, a, other_b, other_a) = match side {
                Target::Left => (before.left, after.left, before.right, after.right),
                Target::Right => (before.right, after.right, before.left, after.left),
            };
            let stored = if word == "force"@ {
                a.force
            } else if word == "vibration"@ {
                a.vibration
            } else {
                a.pain
            };
            let sensation = if word == "force"@ {
                Sensation::Force
            } else if word == "vibration"@ {
                Sensation::Vibration
            } else {
                Sensation::Pain
            };
            &&& (bits <= 0x3f80_0000 || bits == 0x8000_0000) ==> stored == bits
            &&& 0x3f80_0000 < bits < 0x8000_0000 ==> stored == 0x3f80_0000
            &&& bits > 0x8000_0000 ==> stored == 0
            &&& word != "force"@ ==> a.force == b.force
            &&& word != "vibration"@ ==> a.vibration == b.vibration
            &&& word != "pain"@ ==> a.pain == b.pain
            &&& other_a == other_b
            &&& r.1 == Some(HapticEvent::Sensation { target: side, sensation, value: stored })
        }),
{
    reveal_strlit("force");
    reveal_strlit("vibration");
    reveal_strlit("pain");
    let address = m.channel_prefix + name + seq!['/'] + word;
    let relative = address.subrange(m.channel_prefix.len() as int, address.len() as int);
    assert(m.channel_prefix.is_prefix_of(address)) by {
        assert(address.subrange(0, m.channel_prefix.len() as int) =~= m.channel_prefix);
    }
    assert(relative =~= name + seq!['/'] + word);
    lemma_index_of_after(name, word, '/');
    assert(relative.subrange(name.len() as int + 1, relative.len() as int) =~= word);
    assert(relative.subrange(0, name.len() as int) =~= name);
    lemma_index_of_none(word, '/');
    lemma_lookup_last(m.targets, name, i);
}

} // verus!
