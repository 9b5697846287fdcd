//! The entity cache: for every channel, the identifiers of its most recent
//! messages, newest first, bounded in number. The store itself is
//! `twilight_cache_inmemory::InMemoryCache`; this module states what the
//! store holds as plain maps and sequences and proves the cache's rules over
//! that statement.

use crate::event::event_kind;
use crate::event::EventKind;
use crate::event::InboundEvent;
use twilight_cache_inmemory::DefaultCacheModels;
use twilight_cache_inmemory::InMemoryCache;
use twilight_cache_inmemory::ResourceType;
use twilight_model::gateway::event::Event;
use twilight_model::id::Id;
use vstd::prelude::*;

verus! {

/// Messages kept per channel unless a cache is made with another limit.
pub const DEFAULT_MESSAGE_LIMIT: usize = 128;

/// A `twilight_cache_inmemory::InMemoryCache` with the default models. What
/// is known of its contents is what `stored_channels`, `stored_messages`,
/// `stored_limit` and `keeps_messages` say.
#[verifier::external_body]
pub struct MessageStore {
    inner: InMemoryCache<DefaultCacheModels>,
}

/// `s` without the first occurrence of `id`, if it has one.
pub open spec fn without_first(s: Seq<u64>, id: u64) -> Seq<u64>
    decreases s.len(),
{
    if s.len() == 0 {
        s
    } else if s[0] == id {
        s.drop_first()
    } else {
        seq![s[0]] + without_first(s.drop_first(), id)
    }
}

/// The message part of a cache as plain values.
pub struct CacheView {
    /// For each channel that has an entry, its message ids, newest first.
    pub channels: Map<u64, Seq<u64>>,
    /// The ids of the messages whose bodies are held.
    pub messages: Set<u64>,
}

impl CacheView {
    /// The cache that holds nothing.
    pub open spec fn empty() -> CacheView {
        CacheView { channels: Map::empty(), messages: Set::empty() }
    }

    /// The ids held for a channel, newest first; empty for a channel without
    /// an entry.
    pub open spec fn channel(self, scope: u64) -> Seq<u64> {
        if self.channels.contains_key(scope) {
            self.channels[scope]
        } else {
            Seq::empty()
        }
    }

    /// No channel holds more than `limit` ids, and no channel is numbered 0.
    pub open spec fn bounded(self, limit: nat) -> bool {
        &&& !self.channels.contains_key(0)
        &&& forall|scope: u64| #[trigger] self.channel(scope).len() <= limit
    }

    /// A message is posted: its id goes to the front of the channel. A
    /// channel that already holds `limit` ids (or more) first gives up its
    /// oldest id, the last one, and that message's body with it.
    pub open spec fn created(self, scope: u64, id: u64, limit: nat) -> CacheView {
        let held = self.channel(scope);
        if held.len() >= limit && held.len() > 0 {
            CacheView {
                channels: self.channels.insert(scope, seq![id] + held.drop_last()),
                messages: self.messages.remove(held.last()).insert(id),
            }
        } else {
            CacheView {
                channels: self.channels.insert(scope, seq![id] + held),
                messages: self.messages.insert(id),
            }
        }
    }

    /// The cache after messages with these ids were posted to one channel,
    /// one after the other.
    pub open spec fn posted(self, scope: u64, ids: Seq<u64>, limit: nat) -> CacheView
        decreases ids.len(),
    {
        if ids.len() == 0 {
            self
        } else {
            self.posted(scope, ids.drop_last(), limit).created(scope, ids.last(), limit)
        }
    }

    /// A message is edited. If its body is held, only the body changes. If
    /// not, the body is stored and the id enters the channel as in
    /// `created`, except that the evicted body is dropped after the new one
    /// is stored.
    pub open spec fn updated(self, scope: u64, id: u64, limit: nat) -> CacheView {
        let held = self.channel(scope);
        if self.messages.contains(id) {
            self
        } else if held.len() >= limit && held.len() > 0 {
            CacheView {
                channels: self.channels.insert(scope, seq![id] + held.drop_last()),
                messages: self.messages.insert(id).remove(held.last()),
            }
        } else {
            CacheView {
                channels: self.channels.insert(scope, seq![id] + held),
                messages: self.messages.insert(id),
            }
        }
    }

    /// A message is removed: its body goes, and the first occurrence of its
    /// id leaves the channel. The channel gets an entry if it had none.
    pub open spec fn deleted(self, scope: u64, id: u64) -> CacheView {
        CacheView {
            channels: self.channels.insert(scope, without_first(self.channel(scope), id)),
            messages: self.messages.remove(id),
        }
    }

    /// Several messages are removed from one channel, one after the other.
    /// The channel gets an entry even if `ids` is empty.
    pub open spec fn deleted_all(self, scope: u64, ids: Seq<u64>) -> CacheView
        decreases ids.len(),
    {
        if ids.len() == 0 {
            CacheView { channels: self.channels.insert(scope, self.channel(scope)), messages: self.messages }
        } else {
            self.deleted(scope, ids[0]).deleted_all(scope, ids.drop_first())
        }
    }

    /// The cache after an event of the given kind. Events that carry no
    /// message leave it as it is.
    pub open spec fn applied(self, kind: EventKind, limit: nat) -> CacheView {
        match kind {
            EventKind::MessageCreate { channel, message } => self.created(channel, message, limit),
            EventKind::MessageUpdate { channel, message } => self.updated(channel, message, limit),
            EventKind::MessageDelete { channel, message } => self.deleted(channel, message),
            EventKind::MessageDeleteBulk { channel, messages } => self.deleted_all(channel, messages@),
            EventKind::GatewayClose => self,
            EventKind::Other => self,
        }
    }
}

/// The per-channel message ids that a store holds, newest first.
pub uninterp spec fn stored_channels(store: MessageStore) -> Map<u64, Seq<u64>>;

/// The ids of the messages whose bodies a store holds.
pub uninterp spec fn stored_messages(store: MessageStore) -> Set<u64>;

/// The per-channel message limit that a store was built with.
pub uninterp spec fn stored_limit(store: MessageStore) -> nat;

/// Whether a store was built to keep messages at all.
pub uninterp spec fn keeps_messages(store: MessageStore) -> bool;

/// The message part of a store.
pub open spec fn stored(store: MessageStore) -> CacheView {
    CacheView { channels: stored_channels(store), messages: stored_messages(store) }
}

/// `InMemoryCacheBuilder::build`, after `message_cache_size(limit)` and
/// `resource_types(ResourceType::MESSAGE)`: an empty store that keeps
/// messages, up to `limit` per channel.
#[verifier::external_body]
fn build_store(limit: usize) -> (store: MessageStore)
    ensures
        stored_channels(store) == CacheView::empty().channels,
        stored_messages(store) == CacheView::empty().messages,
        stored_limit(store) == limit,
        keeps_messages(store),
{
    let builder = InMemoryCache::builder().message_cache_size(limit);
    MessageStore { inner: builder.resource_types(ResourceType::MESSAGE).build() }
}

/// `InMemoryCache::channel_messages` for the channel numbered `scope`, with
/// each id turned into its integer: the channel's list if it has an entry.
#[verifier::external_body]
fn channel_of_store(store: &MessageStore, scope: u64) -> (ids: Option<Vec<u64>>)
    requires
        scope != 0,
    ensures
        ids.is_some() == stored_channels(*store).contains_key(scope),
        ids matches Some(list) ==> list@ == stored_channels(*store)[scope],
{
    store.inner.channel_messages(Id::new(scope)).map(|list| list.iter().map(|id| id.get()).collect())
}

/// The empty cache is within every limit.
pub proof fn lemma_empty_bounded(limit: nat)
    ensures
        CacheView::empty().bounded(limit),
{
    assert forall|scope: u64| #[trigger] CacheView::empty().channel(scope).len() <= limit by {}
}

/// Removing an id never makes a list longer, and removes one entry if the id
/// occurs.
pub proof fn lemma_without_first_len(s: Seq<u64>, id: u64)
    ensures
        without_first(s, id).len() == if s.contains(id) { s.len() - 1 } else { s.len() as int },
    decreases s.len(),
{
    if s.len() == 0 {
    } else if s[0] == id {
        assert(s.contains(id));
    } else {
        let rest = s.drop_first();
        lemma_without_first_len(rest, id);
        if s.contains(id) {
            let i = choose|i: int| 0 <= i < s.len() && s[i] == id;
            assert(rest[i - 1] == id);
            assert(rest.contains(id));
        } else if rest.contains(id) {
            let j = choose|j: int| 0 <= j < rest.len() && rest[j] == id;
            assert(s[j + 1] == id);
        }
    }
}

/// Deleting a message keeps a cache within its limit.
pub proof fn lemma_deleted_bounded(view: CacheView, scope: u64, id: u64, limit: nat)
    requires
        view.bounded(limit),
        scope != 0,
    ensures
        view.deleted(scope, id).bounded(limit),
{
    let after = view.deleted(scope, id);
    lemma_without_first_len(view.channel(scope), id);
    assert forall|other: u64| #[trigger] after.channel(other).len() <= limit by {
        assert(view.channel(other).len() <= limit);
        assert(view.channel(scope).len() <= limit);
    }
}

/// Deleting several messages keeps a cache within its limit.
pub proof fn lemma_deleted_all_bounded(view: CacheView, scope: u64, ids: Seq<u64>, limit: nat)
    requires
        view.bounded(limit),
        scope != 0,
    ensures
        view.deleted_all(scope, ids).bounded(limit),
    decreases ids.len(),
{
    if ids.len() == 0 {
        let after = view.deleted_all(scope, ids);
        assert forall|other: u64| #[trigger] after.channel(other).len() <= limit by {
            assert(view.channel(other).len() <= limit);
            assert(view.channel(scope).len() <= limit);
        }
    } else {
        lemma_deleted_bounded(view, scope, ids[0], limit);
        lemma_deleted_all_bounded(view.deleted(scope, ids[0]), scope, ids.drop_first(), limit);
    }
}

/// No event takes a cache beyond its limit: a per-channel list never grows
/// longer than the limit the cache was made with.
pub proof fn lemma_applied_bounded(view: CacheView, kind: EventKind, limit: nat)
    requires
        view.bounded(limit),
        limit >= 1,
        kind.well_formed(),
    ensures
        view.applied(kind, limit).bounded(limit),
{
    let after = view.applied(kind, limit);
    match kind {
        EventKind::MessageCreate { channel, message } => {
            assert forall|other: u64| #[trigger] after.channel(other).len() <= limit by {
                assert(view.channel(other).len() <= limit);
                assert(view.channel(channel).len() <= limit);
            }
        },
        EventKind::MessageUpdate { channel, message } => {
            assert forall|other: u64| #[trigger] after.channel(other).len() <= limit by {
                assert(view.channel(other).len() <= limit);
                assert(view.channel(channel).len() <= limit);
            }
        },
        EventKind::MessageDelete { channel, message } => {
            lemma_deleted_bounded(view, channel, message, limit);
        },
        EventKind::MessageDeleteBulk { channel, messages } => {
            lemma_deleted_all_bounded(view, channel, messages@, limit);
        },
        EventKind::GatewayClose => {},
        EventKind::Other => {},
    }
}

/// Posting to a channel puts the new id first and keeps the ids that were
/// there in their order. While the channel is below the limit it grows by
/// one; once it is at the limit its length stays there and the oldest id,
/// the last one, is the one that leaves.
pub proof fn lemma_created_is_fifo(view: CacheView, scope: u64, id: u64, limit: nat)
    requires
        view.bounded(limit),
        limit >= 1,
    ensures
        ({
            let before = view.channel(scope);
            let after = view.created(scope, id, limit).channel(scope);
            &&& after[0] == id
            &&& before.len() < limit ==> after == seq![id] + before
            &&& before.len() == limit ==> after == seq![id] + before.drop_last()
            &&& before.len() == limit ==> after.len() == limit
            &&& after.len() <= limit
        }),
{
    assert(view.channel(scope).len() <= limit);
}

/// The last `count` of `ids`, the last one first.
pub open spec fn newest_first(ids: Seq<u64>, count: nat) -> Seq<u64> {
    Seq::new(count, |i: int| ids[ids.len() - 1 - i])
}

/// However many messages are posted to a channel, it holds as many ids as
/// were posted on top of what it held, up to the limit and never more.
pub proof fn lemma_posted_len(view: CacheView, scope: u64, ids: Seq<u64>, limit: nat)
    requires
        limit >= 1,
        view.channel(scope).len() <= limit,
    ensures
        view.posted(scope, ids, limit).channel(scope).len() == if view.channel(scope).len() + ids.len()
            <= limit {
            view.channel(scope).len() + ids.len()
        } else {
            limit
        },
    decreases ids.len(),
{
    if ids.len() > 0 {
        lemma_posted_len(view, scope, ids.drop_last(), limit);
    }
}

/// Posting to an empty channel leaves it with the newest ids, newest first:
/// all of them while they fit, and the last `limit` of them once more than
/// `limit` were posted. What was posted first is what leaves first.
pub proof fn lemma_posted_keeps_newest(view: CacheView, scope: u64, ids: Seq<u64>, limit: nat)
    requires
        limit >= 1,
        view.channel(scope).len() == 0,
    ensures
        view.posted(scope, ids, limit).channel(scope) == newest_first(
            ids,
            if ids.len() <= limit {
                ids.len()
            } else {
                limit
            },
        ),
    decreases ids.len(),
{
    if ids.len() == 0 {
        assert(view.channel(scope) =~= newest_first(ids, 0));
    } else {
        let earlier = ids.drop_last();
        lemma_posted_keeps_newest(view, scope, earlier, limit);
        let before = view.posted(scope, earlier, limit).channel(scope);
        let after = view.posted(scope, ids, limit).channel(scope);
        let count: nat = if ids.len() <= limit {
            ids.len()
        } else {
            limit
        };
        assert(after =~= newest_first(ids, count));
    }
}

/// Channels are independent: an event about one channel leaves the list of
/// every other channel as it was.
pub proof fn lemma_channels_independent(view: CacheView, kind: EventKind, limit: nat, other: u64)
    requires
        kind.scope() != Some(other),
    ensures
        view.applied(kind, limit).channel(other) == view.channel(other),
{
    match kind {
        EventKind::MessageDeleteBulk { channel, messages } => {
            lemma_deleted_all_elsewhere(view, channel, messages@, other);
        },
        _ => {},
    }
}

/// Deleting from one channel leaves the others alone.
pub proof fn lemma_deleted_all_elsewhere(view: CacheView, scope: u64, ids: Seq<u64>, other: u64)
    requires
        scope != other,
    ensures
        view.deleted_all(scope, ids).channel(other) == view.channel(other),
    decreases ids.len(),
{
    if ids.len() > 0 {
        lemma_deleted_all_elsewhere(view.deleted(scope, ids[0]), scope, ids.drop_first(), other);
    }
}

/// The bounded cache of recent messages that all shard loops write to.
pub struct EntityCache {
    store: MessageStore,
    limit: usize,
}

/// `InMemoryCache::update` with a gateway event, on a store that keeps
/// messages. The four message events change the channel lists and the set of
/// held bodies as `CacheView::applied` says; no other event touches either.
/// The store's configuration stays as it was.
#[verifier::external_body]
fn update_store(cache: &mut EntityCache, payload: &Event)
    requires
        keeps_messages(old(cache).store),
    ensures
        stored_channels(final(cache).store) == stored(old(cache).store).applied(
            event_kind(*payload),
            stored_limit(old(cache).store),
        ).channels,
        stored_messages(final(cache).store) == stored(old(cache).store).applied(
            event_kind(*payload),
            stored_limit(old(cache).store),
        ).messages,
        stored_limit(final(cache).store) == stored_limit(old(cache).store),
        keeps_messages(final(cache).store),
        final(cache).limit == old(cache).limit,
{
    cache.store.inner.update(payload);
}

impl EntityCache {
    #[verifier::type_invariant]
    spec fn consistent(self) -> bool {
        &&& keeps_messages(self.store)
        &&& stored_limit(self.store) == self.limit
        &&& self.limit >= 1
        &&& stored(self.store).bounded(stored_limit(self.store))
    }

    /// What the cache holds.
    pub closed spec fn view(&self) -> CacheView {
        stored(self.store)
    }

    /// The most message ids that the cache keeps for one channel.
    pub closed spec fn limit_spec(&self) -> nat {
        self.limit as nat
    }

    /// An empty cache that keeps `DEFAULT_MESSAGE_LIMIT` messages per
    /// channel.
    pub fn new() -> (cache: Self)
        ensures
            cache@ == CacheView::empty(),
            cache.limit_spec() == DEFAULT_MESSAGE_LIMIT,
    {
        let store = build_store(DEFAULT_MESSAGE_LIMIT);
        proof {
            lemma_empty_bounded(DEFAULT_MESSAGE_LIMIT as nat);
        }
        EntityCache { store, limit: DEFAULT_MESSAGE_LIMIT }
    }

    /// An empty cache that keeps `limit` messages per channel. A cache must
    /// keep at least one.
    pub fn with_limit(limit: usize) -> (cache: Option<Self>)
        ensures
            cache.is_some() <==> limit >= 1,
            cache matches Some(made) ==> made@ == CacheView::empty() && made.limit_spec() == limit,
    {
        if limit == 0 {
            None
        } else {
            let store = build_store(limit);
            proof {
                lemma_empty_bounded(limit as nat);
            }
            Some(EntityCache { store, limit })
        }
    }

    /// Records what an event says about messages. Events of other kinds
    /// change nothing.
    pub fn apply(&mut self, event: &InboundEvent)
        ensures
            final(self)@ == old(self)@.applied(event.kind_spec(), old(self).limit_spec()),
            final(self).limit_spec() == old(self).limit_spec(),
            final(self)@.bounded(final(self).limit_spec()),
    {
        let payload = event.payload();
        proof {
            use_type_invariant(&*self);
            lemma_applied_bounded(self@, event.kind_spec(), self.limit_spec());
        }
        update_store(self, payload);
    }

    /// The message ids held for a channel, newest first; empty if the
    /// channel is unknown.
    pub fn snapshot(&self, scope: u64) -> (ids: Vec<u64>)
        ensures
            ids@ == self@.channel(scope),
            ids@.len() <= self.limit_spec(),
    {
        proof {
            use_type_invariant(self);
            assert(self@.channel(scope).len() <= self.limit_spec());
        }
        if scope == 0 {
            return Vec::new();
        }
        match channel_of_store(&self.store, scope) {
            Some(ids) => ids,
            None => Vec::new(),
        }
    }

    /// The most message ids that the cache keeps for one channel.
    pub fn limit(&self) -> (limit: usize)
        ensures
            limit == self.limit_spec(),
            limit >= 1,
    {
        proof {
            use_type_invariant(self);
        }
        self.limit
    }
}

} // verus!
