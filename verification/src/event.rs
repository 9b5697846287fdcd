//! Inbound gateway events as the shard loops see them: the shard an event
//! arrived on, what kind of event it is, and the decoded payload itself.

use twilight_model::gateway::event::Event;
use vstd::prelude::*;

verus! {

/// `twilight_model::gateway::event::Event`, a decoded gateway event. Nothing
/// is known of one but what `event_kind` says.
#[verifier::external_type_specification]
#[verifier::external_body]
pub struct ExEvent(Event);

/// Position of one connection in the fleet: `index` out of `total` shards.
#[derive(Clone, Copy, Debug, PartialEq, Eq, Structural)]
pub struct ShardId {
    index: u32,
    total: u32,
}

impl ShardId {
    /// The shard's index, counted from zero.
    pub closed spec fn index_spec(self) -> u32 {
        self.index
    }

    /// The size of the fleet the shard belongs to.
    pub closed spec fn total_spec(self) -> u32 {
        self.total
    }

    /// The id of shard `index` in a fleet of `total`.
    pub closed spec fn at(index: u32, total: u32) -> ShardId {
        ShardId { index, total }
    }

    #[verifier::type_invariant]
    spec fn in_fleet(self) -> bool {
        self.index < self.total
    }

    /// The id of shard `index` of `total` has that index and that total.
    pub proof fn lemma_at(index: u32, total: u32)
        ensures
            ShardId::at(index, total).index_spec() == index,
            ShardId::at(index, total).total_spec() == total,
    {
    }

    /// An id for shard `index` of `total`, if there is such a shard.
    pub fn new(index: u32, total: u32) -> (id: Option<ShardId>)
        ensures
            id == if index < total {
                Some(ShardId::at(index, total))
            } else {
                None
            },
    {
        if index < total {
            Some(ShardId { index, total })
        } else {
            None
        }
    }

    #[verifier::when_used_as_spec(index_spec)]
    pub fn index(self) -> (index: u32)
        ensures
            index == self.index_spec(),
            index < self.total_spec(),
    {
        proof {
            use_type_invariant(self);
        }
        self.index
    }

    #[verifier::when_used_as_spec(total_spec)]
    pub fn total(self) -> (total: u32)
        ensures
            total == self.total_spec(),
            total > self.index_spec(),
    {
        proof {
            use_type_invariant(self);
        }
        self.total
    }
}

/// What an event means to the shard loop and to the cache. Identifiers are
/// the raw snowflake values.
#[derive(Debug, PartialEq, Eq)]
pub enum EventKind {
    /// The remote end confirmed that the connection is closed.
    GatewayClose,
    /// A message was posted in a channel.
    MessageCreate { channel: u64, message: u64 },
    /// A message in a channel was edited.
    MessageUpdate { channel: u64, message: u64 },
    /// A message was removed from a channel.
    MessageDelete { channel: u64, message: u64 },
    /// Several messages were removed from a channel at once.
    MessageDeleteBulk { channel: u64, messages: Vec<u64> },
    /// Any other event; the cache keeps no messages for it.
    Other,
}

impl EventKind {
    /// The channel a message event speaks of.
    pub open spec fn scope(self) -> Option<u64> {
        match self {
            EventKind::MessageCreate { channel, .. } => Some(channel),
            EventKind::MessageUpdate { channel, .. } => Some(channel),
            EventKind::MessageDelete { channel, .. } => Some(channel),
            EventKind::MessageDeleteBulk { channel, .. } => Some(channel),
            _ => None,
        }
    }

    /// Channel identifiers are never zero.
    pub open spec fn well_formed(self) -> bool {
        self.scope() != Some(0u64)
    }
}

/// The kind of a decoded gateway event, as `classify` reads it off the
/// payload.
pub uninterp spec fn event_kind(payload: Event) -> EventKind;

/// Reads the variant of a `twilight_model` gateway `Event` and, for the four
/// message events, the channel and message identifiers it carries
/// (`Id::get`). Identifiers are non-zero integers, so the channel is never 0.
#[verifier::external_body]
fn classify(payload: &Event) -> (kind: EventKind)
    ensures
        kind == event_kind(*payload),
        kind.well_formed(),
{
    match payload {
        Event::GatewayClose(_) => EventKind::GatewayClose,
        Event::MessageCreate(m) => EventKind::MessageCreate { channel: m.channel_id.get(), message: m.id.get() },
        Event::MessageUpdate(m) => EventKind::MessageUpdate { channel: m.channel_id.get(), message: m.id.get() },
        Event::MessageDelete(m) => EventKind::MessageDelete { channel: m.channel_id.get(), message: m.id.get() },
        Event::MessageDeleteBulk(m) => EventKind::MessageDeleteBulk {
            channel: m.channel_id.get(),
            messages: m.ids.iter().map(|id| id.get()).collect(),
        },
        _ => EventKind::Other,
    }
}

/// One event received from the gateway: the shard it arrived on, its kind,
/// and the payload, which is carried along untouched for the handlers.
pub struct InboundEvent {
    shard: ShardId,
    kind: EventKind,
    payload: Event,
}

impl InboundEvent {
    #[verifier::type_invariant]
    spec fn kind_matches_payload(self) -> bool {
        self.kind == event_kind(self.payload) && self.kind.well_formed()
    }

    /// The shard the event arrived on.
    pub closed spec fn shard_spec(&self) -> ShardId {
        self.shard
    }

    /// The event's kind.
    pub closed spec fn kind_spec(&self) -> EventKind {
        self.kind
    }

    /// The decoded payload.
    pub closed spec fn payload_spec(&self) -> Event {
        self.payload
    }

    /// Tags a decoded payload with the shard it arrived on and with its kind.
    pub fn from_gateway(shard: ShardId, payload: Event) -> (event: InboundEvent)
        ensures
            event.shard_spec() == shard,
            event.payload_spec() == payload,
            event.kind_spec() == event_kind(payload),
    {
        let kind = classify(&payload);
        InboundEvent { shard, kind, payload }
    }

    #[verifier::when_used_as_spec(shard_spec)]
    pub fn shard(&self) -> (shard: ShardId)
        ensures
            shard == self.shard_spec(),
    {
        self.shard
    }

    pub fn kind(&self) -> (kind: &EventKind)
        ensures
            *kind == self.kind_spec(),
            *kind == event_kind(self.payload_spec()),
            kind.well_formed(),
    {
        proof {
            use_type_invariant(self);
        }
        &self.kind
    }

    /// Whether the remote end confirms closure with this event.
    pub fn is_close(&self) -> (close: bool)
        ensures
            close == (self.kind_spec() is GatewayClose),
    {
        match self.kind {
            EventKind::GatewayClose => true,
            _ => false,
        }
    }

    /// The decoded payload. Its kind is the event's kind.
    pub fn payload(&self) -> (payload: &Event)
        ensures
            *payload == self.payload_spec(),
            event_kind(*payload) == self.kind_spec(),
            self.kind_spec().well_formed(),
    {
        proof {
            use_type_invariant(self);
        }
        &self.payload
    }

    /// Gives the payload up, for a handler to own.
    pub fn into_payload(self) -> (payload: Event)
        ensures
            payload == self.payload_spec(),
    {
        self.payload
    }
}

} // verus!
