//! The publisher state machine.
//!
//! The sole consumer of the event queue. For each dequeued diff event it
//! makes sure the broker link is live (reconnecting if not), resolves the
//! event's output channel — registering one lazily on first use of a
//! (entity, attribute) pair — and publishes the event's value. The machine
//! here decides; the surrounding task performs each decided action
//! (await, reconnect, register, publish) and hands the outcome back.
//!
//! Failure policy, as decided by the transitions: a failed reconnect or a
//! failed channel registration stops the consumer loop for good; a failed
//! publish is logged by the caller and the loop simply moves on.
use crate::event::DiffEvent;
use crate::event::SpecEvent;
use crate::value::AttrValue;
use crate::value::SpecValue;
use vstd::prelude::*;
use vstd::string::StringExecFns;

verus! {

broadcast use vstd::std_specs::vec::group_vec_axioms, vstd::seq::group_seq_axioms;

/// Liveness of the broker link.
#[derive(Clone, Copy, PartialEq, Eq, Structural)]
pub enum ConnState {
    Disconnected,
    Connected,
}

/// Where the machine stands in its event cycle.
#[derive(Clone, Copy, PartialEq, Eq, Structural)]
pub enum Phase {
    /// No event in hand; the next input is a dequeued event or end-of-stream.
    Waiting,
    /// Holding an event; waiting to hear whether reconnecting succeeded.
    Reconnecting,
    /// Holding an event; waiting to hear whether its channel was registered.
    Creating,
    /// Holding an event; waiting to hear whether publishing it succeeded.
    Publishing,
    /// The consumer loop is over; no further input is accepted.
    Stopped,
}

/// Model of an action the machine asks its caller to perform.
#[verifier::ext_equal]
pub enum SpecAction {
    AwaitEvent,
    Reconnect,
    CreateChannel { attribute: Seq<char>, topic: Seq<char> },
    Publish { channel: int, value: SpecValue },
    Stop,
}

/// What the caller is to do next: wait for the next event, reconnect the
/// broker link, register the output channel for a new topic, publish a
/// value on the channel at a slot, or stop the consumer loop.
pub enum Action {
    AwaitEvent,
    Reconnect,
    CreateChannel { attribute: String, topic: String },
    Publish { channel: usize, value: AttrValue },
    Stop,
}

impl View for Action {
    type V = SpecAction;

    open spec fn view(&self) -> SpecAction {
        match self {
            Action::AwaitEvent => SpecAction::AwaitEvent,
            Action::Reconnect => SpecAction::Reconnect,
            Action::CreateChannel { attribute, topic } => SpecAction::CreateChannel {
                attribute: attribute@,
                topic: topic@,
            },
            Action::Publish { channel, value } => SpecAction::Publish {
                channel: *channel as int,
                value: value@,
            },
            Action::Stop => SpecAction::Stop,
        }
    }
}

/// Model of the machine: link state, cycle phase, the registered channel
/// keys in registration order (slot = index), and the event in hand.
#[verifier::ext_equal]
pub struct SpecPublisher {
    pub conn: ConnState,
    pub phase: Phase,
    pub keys: Seq<Seq<char>>,
    pub pending: Option<SpecEvent>,
}

/// The publisher machine. `keys` is the channel registry: the key of the
/// channel at slot `i` is `keys[i]`; the caller keeps the channel handles
/// in a parallel list, appending on each successful registration.
pub struct Publisher {
    pub conn: ConnState,
    pub phase: Phase,
    pub keys: Vec<String>,
    pub pending: Option<DiffEvent>,
}

/// The models of the registered keys, in registration order.
pub open spec fn key_views(keys: Seq<String>) -> Seq<Seq<char>> {
    keys.map_values(|k: String| k@)
}

impl View for Publisher {
    type V = SpecPublisher;

    open spec fn view(&self) -> SpecPublisher {
        SpecPublisher {
            conn: self.conn,
            phase: self.phase,
            keys: key_views(self.keys@),
            pending: match self.pending {
                Some(e) => Some(e@),
                None => None,
            },
        }
    }
}

/// The channel key of an event: `<entityId>/<attribute>`.
pub open spec fn spec_channel_key(entity_id: Seq<char>, attribute: Seq<char>) -> Seq<char> {
    entity_id + "/"@ + attribute
}

/// The broker topic of a channel key: `homeassistant/<key>`.
pub open spec fn spec_topic(key: Seq<char>) -> Seq<char> {
    "homeassistant/"@ + key
}

/// The slot of the first registration of a key, or -1 if none.
pub open spec fn first_index(keys: Seq<Seq<char>>, k: Seq<char>) -> int
    decreases keys.len(),
{
    if keys.len() == 0 {
        -1
    } else if keys.first() == k {
        0
    } else if first_index(keys.drop_first(), k) == -1 {
        -1
    } else {
        first_index(keys.drop_first(), k) + 1
    }
}

/// Resolve the event in hand: publish on its registered channel, or ask
/// for the channel to be registered first.
pub open spec fn spec_resolve(s: SpecPublisher) -> (SpecPublisher, SpecAction)
    recommends
        s.pending is Some,
{
    let e = s.pending->0;
    let key = spec_channel_key(e.entity_id, e.attribute);
    let slot = first_index(s.keys, key);
    if slot >= 0 {
        (
            SpecPublisher { phase: Phase::Publishing, ..s },
            SpecAction::Publish { channel: slot, value: e.value },
        )
    } else {
        (
            SpecPublisher { phase: Phase::Creating, ..s },
            SpecAction::CreateChannel { attribute: e.attribute, topic: spec_topic(key) },
        )
    }
}

/// A dequeued event, or end-of-stream: end-of-stream stops the loop; an
/// event is taken in hand, after a reconnect if the link is down.
pub open spec fn step_event(s: SpecPublisher, ev: Option<SpecEvent>) -> (SpecPublisher, SpecAction)
    recommends
        s.phase is Waiting,
{
    match ev {
        None => (SpecPublisher { phase: Phase::Stopped, ..s }, SpecAction::Stop),
        Some(e) => {
            let held = SpecPublisher { pending: Some(e), ..s };
            if s.conn is Disconnected {
                (SpecPublisher { phase: Phase::Reconnecting, ..held }, SpecAction::Reconnect)
            } else {
                spec_resolve(held)
            }
        },
    }
}

/// The reconnect's outcome: success resolves the event in hand; failure is
/// fatal to the loop.
pub open spec fn step_reconnect(s: SpecPublisher, ok: bool) -> (SpecPublisher, SpecAction)
    recommends
        s.phase is Reconnecting,
        s.pending is Some,
{
    if ok {
        spec_resolve(SpecPublisher { conn: ConnState::Connected, ..s })
    } else {
        (SpecPublisher { phase: Phase::Stopped, ..s }, SpecAction::Stop)
    }
}

/// The channel registration's outcome: success appends the key at the next
/// slot and publishes there; failure is fatal to the loop.
pub open spec fn step_channel(s: SpecPublisher, ok: bool) -> (SpecPublisher, SpecAction)
    recommends
        s.phase is Creating,
        s.pending is Some,
{
    if ok {
        let e = s.pending->0;
        let key = spec_channel_key(e.entity_id, e.attribute);
        (
            SpecPublisher { phase: Phase::Publishing, keys: s.keys.push(key), ..s },
            SpecAction::Publish { channel: s.keys.len() as int, value: e.value },
        )
    } else {
        (SpecPublisher { phase: Phase::Stopped, ..s }, SpecAction::Stop)
    }
}

/// The publish's outcome: success or failure alike, the machine lets the
/// event go and waits for the next one — a publish failure is logged by
/// the caller and never stops the loop.
pub open spec fn step_publish(s: SpecPublisher, ok: bool) -> (SpecPublisher, SpecAction)
    recommends
        s.phase is Publishing,
{
    (SpecPublisher { phase: Phase::Waiting, pending: None, ..s }, SpecAction::AwaitEvent)
}

/// Derive the channel key `<entityId>/<attribute>` of an event.
pub fn channel_key(entity_id: &String, attribute: &String) -> (r: String)
    ensures
        r@ == spec_channel_key(entity_id@, attribute@),
{
    let mut s = entity_id.clone();
    s.append("/");
    s.append(attribute.as_str());
    s
}

/// Derive the broker topic `homeassistant/<key>` of a channel key.
pub fn topic_for(key: &String) -> (r: String)
    ensures
        r@ == spec_topic(key@),
{
    let mut t = String::from_str("homeassistant/");
    t.append(key.as_str());
    t
}

proof fn lemma_first_index_found(keys: Seq<Seq<char>>, k: Seq<char>, i: int)
    requires
        0 <= i < keys.len(),
        keys[i] == k,
        forall|j: int| 0 <= j < i ==> keys[j] != k,
    ensures
        first_index(keys, k) == i,
    decreases keys.len(),
{
    if i == 0 {
        assert(keys.first() == k);
    } else {
        assert(keys.first() != k);
        assert(forall|j: int| 0 <= j < i - 1 ==> keys.drop_first()[j] == keys[j + 1]);
        assert(keys.drop_first()[i - 1] == keys[i]);
        lemma_first_index_found(keys.drop_first(), k, i - 1);
    }
}

proof fn lemma_first_index_absent(keys: Seq<Seq<char>>, k: Seq<char>)
    requires
        forall|j: int| 0 <= j < keys.len() ==> keys[j] != k,
    ensures
        first_index(keys, k) == -1,
    decreases keys.len(),
{
    if keys.len() > 0 {
        assert(forall|j: int| 0 <= j < keys.len() - 1 ==> keys.drop_first()[j] == keys[j + 1]);
        lemma_first_index_absent(keys.drop_first(), k);
    }
}

/// Find the slot of a key in the registry.
fn find_key(keys: &Vec<String>, key: &String) -> (r: Option<usize>)
    ensures
        match r {
            Some(i) => first_index(key_views(keys@), key@) == i as int,
            None => first_index(key_views(keys@), key@) == -1,
        },
{
    let ghost kv = key_views(keys@);
    let mut i: usize = 0;
    while i < keys.len()
        invariant
            i <= keys.len(),
            kv == key_views(keys@),
            forall|j: int| 0 <= j < i ==> kv[j] != key@,
        decreases keys.len() - i,
    {
        let k = &keys[i];
        if *k == *key {
            proof {
                lemma_first_index_found(kv, key@, i as int);
            }
            return Some(i);
        }
        i += 1;
    }
    proof {
        lemma_first_index_absent(kv, key@);
    }
    None
}

impl Publisher {
    /// A fresh machine: no channels registered, no event in hand, the link
    /// as the startup probe found it.
    pub fn new(initially_connected: bool) -> (r: Publisher)
        ensures
            r@.phase is Waiting,
            r@.pending is None,
            r@.keys.len() == 0,
            r@.conn == (if initially_connected {
                ConnState::Connected
            } else {
                ConnState::Disconnected
            }),
    {
        Publisher {
            conn: if initially_connected {
                ConnState::Connected
            } else {
                ConnState::Disconnected
            },
            phase: Phase::Waiting,
            keys: Vec::new(),
            pending: None,
        }
    }

    /// Resolve the event in hand, as `spec_resolve` says.
    fn resolve(&mut self) -> (a: Action)
        requires
            old(self)@.pending is Some,
        ensures
            final(self)@ == spec_resolve(old(self)@).0,
            a@ == spec_resolve(old(self)@).1,
    {
        let ghost s0 = self@;
        let e = self.pending.as_ref().unwrap();
        let key = channel_key(&e.entity_id, &e.attribute);
        let attribute = e.attribute.clone();
        let value = e.value.duplicate();
        match find_key(&self.keys, &key) {
            Some(slot) => {
                self.phase = Phase::Publishing;
                let a = Action::Publish { channel: slot, value };
                proof {
                    assert(self@ =~= spec_resolve(s0).0);
                    assert(a@ =~= spec_resolve(s0).1);
                }
                a
            },
            None => {
                let topic = topic_for(&key);
                self.phase = Phase::Creating;
                let a = Action::CreateChannel { attribute, topic };
                proof {
                    assert(self@ =~= spec_resolve(s0).0);
                    assert(a@ =~= spec_resolve(s0).1);
                }
                a
            },
        }
    }

    /// Take in a dequeued event, or end-of-stream.
    pub fn on_event(&mut self, ev: Option<DiffEvent>) -> (a: Action)
        requires
            old(self)@.phase is Waiting,
        ensures
            final(self)@ == step_event(old(self)@, crate::event::opt_event_view(ev)).0,
            a@ == step_event(old(self)@, crate::event::opt_event_view(ev)).1,
    {
        let ghost s0 = self@;
        match ev {
            None => {
                self.phase = Phase::Stopped;
                proof {
                    assert(self@ =~= step_event(s0, None).0);
                }
                Action::Stop
            },
            Some(e) => {
                self.pending = Some(e);
                if self.conn == ConnState::Disconnected {
                    self.phase = Phase::Reconnecting;
                    proof {
                        assert(self@ =~= step_event(s0, Some(e@)).0);
                    }
                    Action::Reconnect
                } else {
                    let a = self.resolve();
                    proof {
                        assert(self@ =~= step_event(s0, Some(e@)).0);
                        assert(a@ =~= step_event(s0, Some(e@)).1);
                    }
                    a
                }
            },
        }
    }

    /// Take in the outcome of the reconnect the machine asked for.
    pub fn on_reconnect_result(&mut self, ok: bool) -> (a: Action)
        requires
            old(self)@.phase is Reconnecting,
            old(self)@.pending is Some,
        ensures
            final(self)@ == step_reconnect(old(self)@, ok).0,
            a@ == step_reconnect(old(self)@, ok).1,
    {
        let ghost s0 = self@;
        if ok {
            self.conn = ConnState::Connected;
            let a = self.resolve();
            proof {
                assert(self@ =~= step_reconnect(s0, true).0);
                assert(a@ =~= step_reconnect(s0, true).1);
            }
            a
        } else {
            self.phase = Phase::Stopped;
            proof {
                assert(self@ =~= step_reconnect(s0, false).0);
            }
            Action::Stop
        }
    }

    /// Take in the outcome of the channel registration the machine asked
    /// for; on success the caller has appended the new channel handle, and
    /// the machine records its key at the same slot.
    pub fn on_channel_created(&mut self, ok: bool) -> (a: Action)
        requires
            old(self)@.phase is Creating,
            old(self)@.pending is Some,
        ensures
            final(self)@ == step_channel(old(self)@, ok).0,
            a@ == step_channel(old(self)@, ok).1,
    {
        let ghost s0 = self@;
        if ok {
            let e = self.pending.as_ref().unwrap();
            let key = channel_key(&e.entity_id, &e.attribute);
            let value = e.value.duplicate();
            let slot = self.keys.len();
            self.keys.push(key);
            self.phase = Phase::Publishing;
            let a = Action::Publish { channel: slot, value };
            proof {
                assert(key_views(self.keys@) =~= s0.keys.push(
                    spec_channel_key(s0.pending->0.entity_id, s0.pending->0.attribute),
                ));
                assert(self@ =~= step_channel(s0, true).0);
                assert(a@ =~= step_channel(s0, true).1);
            }
            a
        } else {
            self.phase = Phase::Stopped;
            proof {
                assert(self@ =~= step_channel(s0, false).0);
            }
            Action::Stop
        }
    }

    /// Take in the outcome of the publish the machine asked for. Success
    /// and failure alike, the machine waits for the next event: one
    /// event's publish failure never blocks the events behind it.
    pub fn on_publish_result(&mut self, ok: bool) -> (a: Action)
        requires
            old(self)@.phase is Publishing,
        ensures
            final(self)@ == step_publish(old(self)@, ok).0,
            a@ == step_publish(old(self)@, ok).1,
            final(self)@.phase is Waiting,
    {
        let ghost s0 = self@;
        self.phase = Phase::Waiting;
        self.pending = None;
        proof {
            assert(self@ =~= step_publish(s0, ok).0);
        }
        Action::AwaitEvent
    }
}

/// `b` carries every slot of `a`, unchanged, and possibly more.
pub open spec fn keys_extend(a: Seq<Seq<char>>, b: Seq<Seq<char>>) -> bool {
    a.len() <= b.len() && forall|j: int| 0 <= j < a.len() ==> a[j] == b[j]
}

/// No step of the machine ever forgets a registered channel: whatever the
/// input, the key registry of the next state extends the current one.
pub proof fn lemma_steps_extend_keys(s: SpecPublisher, ev: Option<SpecEvent>, ok: bool)
    ensures
        keys_extend(s.keys, step_event(s, ev).0.keys),
        keys_extend(s.keys, step_reconnect(s, ok).0.keys),
        keys_extend(s.keys, step_channel(s, ok).0.keys),
        keys_extend(s.keys, step_publish(s, ok).0.keys),
{
}

/// The slot a key once resolved to is the slot it resolves to in every
/// registry that extends the current one.
pub proof fn lemma_slot_stable(keys1: Seq<Seq<char>>, keys2: Seq<Seq<char>>, k: Seq<char>)
    requires
        keys_extend(keys1, keys2),
        first_index(keys1, k) >= 0,
    ensures
        first_index(keys2, k) == first_index(keys1, k),
    decreases keys1.len(),
{
    assert(keys1.len() > 0);
    if keys1.first() == k {
        assert(keys2.first() == keys1[0]);
    } else {
        assert(keys2.first() == keys1[0]);
        let t1 = keys1.drop_first();
        let t2 = keys2.drop_first();
        assert(keys_extend(t1, t2)) by {
            assert(forall|j: int| 0 <= j < t1.len() ==> t1[j] == keys1[j + 1] && t2[j] == keys2[j + 1]);
        }
        lemma_slot_stable(t1, t2, k);
    }
}

/// Registry reuse: two events with the same entity and attribute resolve
/// to the identical output channel. If the machine once resolved an
/// event's key to a channel slot, then in any later state — the registry
/// only ever grows — an event with the same entity and attribute resolves
/// to that same slot, and no new channel is asked for.
pub proof fn lemma_channel_reuse(s1: SpecPublisher, s2: SpecPublisher)
    requires
        keys_extend(s1.keys, s2.keys),
        s1.pending is Some,
        s2.pending is Some,
        s2.pending->0.entity_id == s1.pending->0.entity_id,
        s2.pending->0.attribute == s1.pending->0.attribute,
        spec_resolve(s1).1 is Publish,
    ensures
        spec_resolve(s2).1 is Publish,
        spec_resolve(s2).1->Publish_channel == spec_resolve(s1).1->Publish_channel,
{
    let key = spec_channel_key(s1.pending->0.entity_id, s1.pending->0.attribute);
    lemma_slot_stable(s1.keys, s2.keys, key);
}

/// A key the registry does not resolve is a key no slot holds, and a
/// resolved slot holds its key.
proof fn lemma_first_index_bounds(keys: Seq<Seq<char>>, k: Seq<char>)
    ensures
        first_index(keys, k) >= -1,
        first_index(keys, k) == -1 ==> forall|j: int| 0 <= j < keys.len() ==> keys[j] != k,
        first_index(keys, k) != -1 ==> 0 <= first_index(keys, k) < keys.len() && keys[first_index(
            keys,
            k,
        )] == k,
    decreases keys.len(),
{
    if keys.len() > 0 {
        lemma_first_index_bounds(keys.drop_first(), k);
        let fi = first_index(keys, k);
        if fi == -1 {
            assert forall|j: int| 0 <= j < keys.len() implies keys[j] != k by {
                if j == 0 {
                    assert(keys[0] == keys.first());
                } else {
                    assert(keys.drop_first()[j - 1] == keys[j]);
                }
            }
        } else if keys.first() == k {
            assert(keys[0] == keys.first());
        } else {
            assert(keys.drop_first()[fi - 1] == keys[fi]);
        }
    }
}

/// The registry holds at most one channel per key, and while a
/// registration is in flight the key being registered is not yet held.
pub open spec fn inv(s: SpecPublisher) -> bool {
    &&& (forall|i: int, j: int| 0 <= i < j < s.keys.len() ==> s.keys[i] != s.keys[j])
    &&& (s.phase is Creating ==> s.pending is Some && first_index(
        s.keys,
        spec_channel_key(s.pending->0.entity_id, s.pending->0.attribute),
    ) == -1)
}

/// A fresh machine satisfies the registry invariant.
pub proof fn lemma_new_satisfies_inv(s: SpecPublisher)
    requires
        s.keys.len() == 0,
        !(s.phase is Creating),
    ensures
        inv(s),
{
}

/// Every step of the machine keeps the registry invariant: no key is ever
/// registered twice, so a (entity, attribute) pair owns at most one
/// output channel for the life of the process.
pub proof fn lemma_steps_preserve_inv(s: SpecPublisher, ev: Option<SpecEvent>, ok: bool)
    requires
        inv(s),
    ensures
        s.phase is Waiting ==> inv(step_event(s, ev).0),
        s.phase is Reconnecting && s.pending is Some ==> inv(step_reconnect(s, ok).0),
        s.phase is Creating ==> inv(step_channel(s, ok).0),
        s.phase is Publishing ==> inv(step_publish(s, ok).0),
{
    if s.pending is Some {
        let e = s.pending->0;
        lemma_first_index_bounds(s.keys, spec_channel_key(e.entity_id, e.attribute));
    }
    if ev is Some {
        let e = ev->0;
        lemma_first_index_bounds(s.keys, spec_channel_key(e.entity_id, e.attribute));
    }
    if s.phase is Creating && ok {
        let e = s.pending->0;
        let key = spec_channel_key(e.entity_id, e.attribute);
        let grown = s.keys.push(key);
        assert(forall|i: int| 0 <= i < grown.len() - 1 ==> grown[i] == s.keys[i]);
        assert(grown[grown.len() - 1] == key);
    }
}

/// No event loss across a successful reconnect; a failed reconnect stops
/// the loop. An event dequeued while the link is down puts the machine
/// into a reconnect; if the reconnect succeeds, the very value of that
/// event is what the machine then asks to publish (directly, or right
/// after registering the event's channel); if the reconnect fails, no
/// publish is asked for and the machine stops.
pub proof fn lemma_reconnect_keeps_event(s: SpecPublisher, e: SpecEvent)
    requires
        s.phase is Waiting,
        s.conn is Disconnected,
    ensures
        ({
            let (held, first) = step_event(s, Some(e));
            let key = spec_channel_key(e.entity_id, e.attribute);
            let (up, next) = step_reconnect(held, true);
            let (down, last) = step_reconnect(held, false);
            &&& first is Reconnect
            &&& held.pending == Some(e)
            &&& (first_index(s.keys, key) >= 0 ==> next == (SpecAction::Publish {
                channel: first_index(s.keys, key),
                value: e.value,
            }))
            &&& (first_index(s.keys, key) < 0 ==> next == (SpecAction::CreateChannel {
                attribute: e.attribute,
                topic: spec_topic(key),
            }) && step_channel(up, true).1 == (SpecAction::Publish {
                channel: s.keys.len() as int,
                value: e.value,
            }))
            &&& last is Stop
            &&& down.phase is Stopped
        }),
{
}

/// A failed publish leaves the machine exactly where a successful one
/// does: ready for the next event, with the link, the registry and the
/// rest of the state untouched — one event's failure never blocks or
/// drops the events behind it.
pub proof fn lemma_publish_failure_harmless(s: SpecPublisher)
    requires
        s.phase is Publishing,
    ensures
        step_publish(s, false) == step_publish(s, true),
        step_publish(s, false).0.phase is Waiting,
        step_publish(s, false).1 is AwaitEvent,
        step_publish(s, false).0.keys == s.keys,
        step_publish(s, false).0.conn == s.conn,
{
}

} // verus!
