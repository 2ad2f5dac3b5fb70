//! The multiplexer of the fan-out path: one upstream consumer for each filter
//! key, however many local subscribers ask for it.
//!
//! A subscription is decided here and carried out by the caller. `subscribe`
//! says whether a sender is registered under the key of the filter, and what
//! to create if none is; `register` records the sender that was created. The
//! caller holds the multiplexer exclusively from the one call to the other,
//! so that of two subscribers with one key only the first creates a consumer.

use vstd::prelude::*;

use crate::activities::{Activity, ActivityPayloadDiscriminants};
use crate::stream::{
    admits, delivers, filter_view, lemma_filter_subjects_deliver_admitted, stream_config,
    text_view, ActivityStream, ConsumerConfig,
};
use crate::subject::subject_of;

verus! {

/// The number of activities that a broadcast channel keeps for a subscriber
/// that is slow to read. A subscriber that falls further behind loses the
/// oldest of them; the multiplexer is never held up.
pub const BROADCAST_CAPACITY: usize = 1_000_000;

/// `key`, extended by the subject suffix of `kind` where `present`, after a
/// dot where `key` is not empty.
pub open spec fn joined(key: Seq<char>, present: bool, kind: ActivityPayloadDiscriminants) -> Seq<
    char,
> {
    if !present {
        key
    } else if key.len() == 0 {
        kind.subject()
    } else {
        key + seq!['.'] + kind.subject()
    }
}

/// The key of a set of kinds: the subject suffixes of its members, in the
/// order of the kinds, with dots between them.
pub open spec fn subjects_key(kinds: Set<ActivityPayloadDiscriminants>) -> Seq<char> {
    let k0 = joined(
        Seq::empty(),
        kinds.contains(ActivityPayloadDiscriminants::RebaseRequest),
        ActivityPayloadDiscriminants::RebaseRequest,
    );
    let k1 = joined(
        k0,
        kinds.contains(ActivityPayloadDiscriminants::RebaseFinished),
        ActivityPayloadDiscriminants::RebaseFinished,
    );
    let k2 = joined(
        k1,
        kinds.contains(ActivityPayloadDiscriminants::IntegrationTest),
        ActivityPayloadDiscriminants::IntegrationTest,
    );
    joined(
        k2,
        kinds.contains(ActivityPayloadDiscriminants::IntegrationTestAlt),
        ActivityPayloadDiscriminants::IntegrationTestAlt,
    )
}

/// The key under which the subscriptions to `filters` share a consumer:
/// `everything` where there is no filter, and otherwise the key of the set of
/// kinds named, whatever their order and however often each is named.
pub open spec fn multiplex_key(filters: Option<Seq<ActivityPayloadDiscriminants>>) -> Seq<char> {
    match filters {
        None => "everything"@,
        Some(kinds) => subjects_key(kinds.to_set()),
    }
}

/// The length of the key of a set of kinds, by its members.
spec fn key_len(kinds: Set<ActivityPayloadDiscriminants>) -> int {
    let sum = (if kinds.contains(ActivityPayloadDiscriminants::RebaseRequest) {
        15int
    } else {
        0
    }) + (if kinds.contains(ActivityPayloadDiscriminants::RebaseFinished) {
        16int
    } else {
        0
    }) + (if kinds.contains(ActivityPayloadDiscriminants::IntegrationTest) {
        22int
    } else {
        0
    }) + (if kinds.contains(ActivityPayloadDiscriminants::IntegrationTestAlt) {
        21int
    } else {
        0
    });
    if sum == 0 {
        0
    } else {
        sum - 1
    }
}

/// The key of a set of kinds has the length of its parts, and its eighth
/// character tells a key that starts with the request from one that starts
/// with the answer.
proof fn lemma_key_shape(kinds: Set<ActivityPayloadDiscriminants>)
    ensures
        subjects_key(kinds).len() == key_len(kinds),
        kinds.contains(ActivityPayloadDiscriminants::RebaseRequest) ==> subjects_key(kinds)[7]
            == 'r',
        !kinds.contains(ActivityPayloadDiscriminants::RebaseRequest) && kinds.contains(
            ActivityPayloadDiscriminants::RebaseFinished,
        ) ==> subjects_key(kinds)[7] == 'f',
{
    reveal_strlit("rebase.request");
    reveal_strlit("rebase.finished");
    reveal_strlit("integration_test.test");
    reveal_strlit("integration_test.alt");
    let s0 = ActivityPayloadDiscriminants::RebaseRequest.subject();
    let s1 = ActivityPayloadDiscriminants::RebaseFinished.subject();
    let s2 = ActivityPayloadDiscriminants::IntegrationTest.subject();
    let s3 = ActivityPayloadDiscriminants::IntegrationTestAlt.subject();
    assert(s0.len() == 14 && s0[7] == 'r');
    assert(s1.len() == 15 && s1[7] == 'f');
    assert(s2.len() == 21);
    assert(s3.len() == 20);
    let k0 = joined(
        Seq::empty(),
        kinds.contains(ActivityPayloadDiscriminants::RebaseRequest),
        ActivityPayloadDiscriminants::RebaseRequest,
    );
    let k1 = joined(
        k0,
        kinds.contains(ActivityPayloadDiscriminants::RebaseFinished),
        ActivityPayloadDiscriminants::RebaseFinished,
    );
    let k2 = joined(
        k1,
        kinds.contains(ActivityPayloadDiscriminants::IntegrationTest),
        ActivityPayloadDiscriminants::IntegrationTest,
    );
    assert(kinds.contains(ActivityPayloadDiscriminants::RebaseRequest) ==> k0.len() == 14 && k0[7]
        == 'r');
    assert(!kinds.contains(ActivityPayloadDiscriminants::RebaseRequest) ==> k0.len() == 0);
    assert(k1.len() >= 14 ==> k1[7] == k0[7] || (k0.len() == 0 && k1[7] == 'f'));
    assert(k2.len() >= 14 && k1.len() >= 14 ==> k2[7] == k1[7]);
}

/// Two sets of kinds with one key are the same set.
pub proof fn lemma_subjects_key_identifies_kinds(
    a: Set<ActivityPayloadDiscriminants>,
    b: Set<ActivityPayloadDiscriminants>,
)
    requires
        subjects_key(a) == subjects_key(b),
    ensures
        a == b,
{
    lemma_key_shape(a);
    lemma_key_shape(b);
    assert(a.contains(ActivityPayloadDiscriminants::RebaseRequest) == b.contains(
        ActivityPayloadDiscriminants::RebaseRequest,
    ));
    assert(a.contains(ActivityPayloadDiscriminants::RebaseFinished) == b.contains(
        ActivityPayloadDiscriminants::RebaseFinished,
    ));
    assert(a.contains(ActivityPayloadDiscriminants::IntegrationTest) == b.contains(
        ActivityPayloadDiscriminants::IntegrationTest,
    ));
    assert(a.contains(ActivityPayloadDiscriminants::IntegrationTestAlt) == b.contains(
        ActivityPayloadDiscriminants::IntegrationTestAlt,
    ));
    assert forall|kind: ActivityPayloadDiscriminants| a.contains(kind) == b.contains(kind) by {
        match kind {
            ActivityPayloadDiscriminants::RebaseRequest => {},
            ActivityPayloadDiscriminants::RebaseFinished => {},
            ActivityPayloadDiscriminants::IntegrationTest => {},
            ActivityPayloadDiscriminants::IntegrationTestAlt => {},
        }
    }
    assert(a =~= b);
}

/// Filters that name the same kinds share a key, in whatever order and
/// however often they name them.
pub proof fn lemma_same_kinds_same_key(
    a: Seq<ActivityPayloadDiscriminants>,
    b: Seq<ActivityPayloadDiscriminants>,
)
    requires
        a.to_set() == b.to_set(),
    ensures
        multiplex_key(Some(a)) == multiplex_key(Some(b)),
{
}

/// Subscriptions that share a key are to receive the same kinds: a
/// subscriber that attaches to the consumer of another receives what its own
/// filter admits, and nothing else.
pub proof fn lemma_same_key_admits_same_kinds(
    a: Option<Seq<ActivityPayloadDiscriminants>>,
    b: Option<Seq<ActivityPayloadDiscriminants>>,
    kind: ActivityPayloadDiscriminants,
)
    requires
        multiplex_key(a) == multiplex_key(b),
    ensures
        admits(a, kind) == admits(b, kind),
{
    reveal_strlit("everything");
    match (a, b) {
        (None, None) => {},
        (Some(x), None) => {
            lemma_key_shape(x.to_set());
        },
        (None, Some(y)) => {
            lemma_key_shape(y.to_set());
        },
        (Some(x), Some(y)) => {
            lemma_subjects_key_identifies_kinds(x.to_set(), y.to_set());
            assert(x.contains(kind) == x.to_set().contains(kind));
            assert(y.contains(kind) == y.to_set().contains(kind));
            if x.len() == 0 {
                assert(x.to_set() =~= Set::empty());
                if y.len() > 0 {
                    assert(y.to_set().contains(y[0]));
                }
            }
            if y.len() == 0 {
                assert(y.to_set() =~= Set::empty());
                if x.len() > 0 {
                    assert(x.to_set().contains(x[0]));
                }
            }
        },
    }
}

/// A subscriber that attaches to the consumer that another subscriber
/// opened under the same key receives the activities of exactly the kinds
/// that its own filter admits: every activity of such a kind that is
/// published under the prefix is delivered to the consumer, and no activity
/// of another kind ever is.
pub proof fn lemma_attached_subscriber_receives_what_it_admits(
    prefix: Option<Seq<char>>,
    instance_id: u128,
    opener: Option<Seq<ActivityPayloadDiscriminants>>,
    subscriber: Option<Seq<ActivityPayloadDiscriminants>>,
    kind: ActivityPayloadDiscriminants,
)
    requires
        multiplex_key(opener) == multiplex_key(subscriber),
    ensures
        delivers(
            stream_config(prefix, instance_id, opener).filter_subjects,
            subject_of(prefix, kind),
        ) <==> admits(subscriber, kind),
{
    lemma_same_key_admits_same_kinds(opener, subscriber, kind);
    lemma_filter_subjects_deliver_admitted(prefix, opener, kind);
}

/// Whether `kinds` names `kind`.
fn names(kinds: &Vec<ActivityPayloadDiscriminants>, kind: ActivityPayloadDiscriminants) -> (found:
    bool)
    ensures
        found == kinds@.to_set().contains(kind),
{
    let mut i: usize = 0;
    while i < kinds.len()
        invariant
            i <= kinds.len(),
            forall|j: int| 0 <= j < i ==> kinds@[j] != kind,
        decreases kinds.len() - i,
    {
        if kinds[i] == kind {
            assert(kinds@.contains(kind));
            return true;
        }
        i += 1;
    }
    assert(!kinds@.contains(kind));
    false
}

/// `key`, extended by the subject suffix of `kind` where `present`.
fn join(key: String, present: bool, kind: ActivityPayloadDiscriminants) -> (r: String)
    ensures
        r@ == joined(key@, present, kind),
{
    if !present {
        key
    } else {
        let suffix = kind.to_subject();
        if key.as_str().unicode_len() == 0 {
            suffix
        } else {
            proof {
                reveal_strlit(".");
            }
            let r = key.concat(".").concat(suffix.as_str());
            assert(r@ =~= joined(key@, present, kind));
            r
        }
    }
}

/// The key under which the subscriptions to `filters` share a consumer.
pub fn filter_key(filters: &Option<Vec<ActivityPayloadDiscriminants>>) -> (key: String)
    ensures
        key@ == multiplex_key(filter_view(*filters)),
{
    match filters {
        None => "everything".to_owned(),
        Some(kinds) => {
            let k0 = join(
                String::new(),
                names(kinds, ActivityPayloadDiscriminants::RebaseRequest),
                ActivityPayloadDiscriminants::RebaseRequest,
            );
            let k1 = join(
                k0,
                names(kinds, ActivityPayloadDiscriminants::RebaseFinished),
                ActivityPayloadDiscriminants::RebaseFinished,
            );
            let k2 = join(
                k1,
                names(kinds, ActivityPayloadDiscriminants::IntegrationTest),
                ActivityPayloadDiscriminants::IntegrationTest,
            );
            join(
                k2,
                names(kinds, ActivityPayloadDiscriminants::IntegrationTestAlt),
                ActivityPayloadDiscriminants::IntegrationTestAlt,
            )
        },
    }
}

/// What a subscriber without a registered sender has to create: a consumer
/// with `config`, and a broadcast channel of `capacity` to register under
/// `key`.
#[derive(Clone, Debug, PartialEq, Eq)]
pub struct StreamRequest {
    pub key: String,
    pub config: ConsumerConfig,
    pub capacity: usize,
}

/// The decision on a subscription.
pub enum Subscription<'a, S> {
    /// A sender is registered under the key: take a receiver from it.
    Attach(&'a S),
    /// No sender is registered under the key: create what the request
    /// describes, then register the sender.
    Open(StreamRequest),
}

/// The decision on a subscription, as plain values.
pub enum Decision<S> {
    Attach(S),
    Open,
}

/// The decision on a subscription with `key`, given the senders registered.
pub open spec fn decide<S>(channels: Map<Seq<char>, S>, key: Seq<char>) -> Decision<S> {
    if channels.contains_key(key) {
        Decision::Attach(channels[key])
    } else {
        Decision::Open
    }
}

/// The senders registered after `sender` was offered for `key`: the first
/// sender of a key stays.
pub open spec fn registered<S>(channels: Map<Seq<char>, S>, key: Seq<char>, sender: S) -> Map<
    Seq<char>,
    S,
> {
    if channels.contains_key(key) {
        channels
    } else {
        channels.insert(key, sender)
    }
}

/// The keys registered after every subscription of `filters` was carried
/// out, in order, starting from `keys`.
pub open spec fn keys_after(
    keys: Set<Seq<char>>,
    filters: Seq<Option<Seq<ActivityPayloadDiscriminants>>>,
) -> Set<Seq<char>>
    decreases filters.len(),
{
    if filters.len() == 0 {
        keys
    } else {
        keys_after(keys, filters.drop_last()).insert(multiplex_key(filters.last()))
    }
}

/// The number of consumers that the subscriptions of `filters` create,
/// carried out in order, starting from `keys`: one for each subscription that
/// finds no sender under its key.
pub open spec fn consumers_opened(
    keys: Set<Seq<char>>,
    filters: Seq<Option<Seq<ActivityPayloadDiscriminants>>>,
) -> nat
    decreases filters.len(),
{
    if filters.len() == 0 {
        0
    } else {
        let before = keys_after(keys, filters.drop_last());
        let opened: nat = if before.contains(multiplex_key(filters.last())) {
            0
        } else {
            1
        };
        consumers_opened(keys, filters.drop_last()) + opened
    }
}

/// One consumer for each key: however many subscriptions are carried out,
/// and whichever share a key, the consumers created are as many as the keys
/// that were not registered before.
pub proof fn lemma_one_consumer_per_key(
    keys: Set<Seq<char>>,
    filters: Seq<Option<Seq<ActivityPayloadDiscriminants>>>,
)
    requires
        keys.finite(),
    ensures
        keys_after(keys, filters).finite(),
        keys.subset_of(keys_after(keys, filters)),
        consumers_opened(keys, filters) == keys_after(keys, filters).len() - keys.len(),
    decreases filters.len(),
{
    if filters.len() > 0 {
        lemma_one_consumer_per_key(keys, filters.drop_last());
    }
}

/// Of two subscriptions with one key, the second attaches to the sender
/// that the first registered, or that was registered before both: it opens
/// nothing.
pub proof fn lemma_second_subscription_attaches<S>(
    channels: Map<Seq<char>, S>,
    first: Option<Seq<ActivityPayloadDiscriminants>>,
    second: Option<Seq<ActivityPayloadDiscriminants>>,
    created: S,
)
    requires
        multiplex_key(first) == multiplex_key(second),
    ensures
        ({
            let after_first = registered(channels, multiplex_key(first), created);
            &&& decide(after_first, multiplex_key(second)) == match decide(
                channels,
                multiplex_key(first),
            ) {
                Decision::Attach(sender) => Decision::Attach(sender),
                Decision::Open => Decision::Attach(created),
            }
            &&& registered(after_first, multiplex_key(second), created) == after_first
        }),
{
}

/// One registered sender, with its key.
struct Channel<S> {
    key: String,
    sender: S,
}

/// The multiplexer of one instance: the senders of its broadcast channels,
/// each under the key of the filter that it serves. A key is registered once
/// and stays for the life of the multiplexer.
pub struct ActivityMultiplexer<S> {
    instance_id: u128,
    prefix: Option<String>,
    channels: Vec<Channel<S>>,
}

impl<S> ActivityMultiplexer<S> {
    /// No key is registered twice.
    pub closed spec fn wf(&self) -> bool {
        forall|i: int, j: int|
            0 <= i < self.channels@.len() && 0 <= j < self.channels@.len() && i != j
                ==> self.channels@[i].key@ != self.channels@[j].key@
    }

    spec fn position(&self, key: Seq<char>) -> int {
        choose|i: int| 0 <= i < self.channels@.len() && self.channels@[i].key@ == key
    }

    /// The senders registered, by key.
    pub closed spec fn channels(&self) -> Map<Seq<char>, S> {
        Map::new(
            |key: Seq<char>|
                exists|i: int| 0 <= i < self.channels@.len() && self.channels@[i].key@ == key,
            |key: Seq<char>| self.channels@[self.position(key)].sender,
        )
    }

    /// The identifier of the instance.
    pub closed spec fn instance_id(&self) -> u128 {
        self.instance_id
    }

    /// The subject prefix of the fleet.
    pub closed spec fn prefix(&self) -> Option<Seq<char>> {
        text_view(self.prefix)
    }

    /// A multiplexer without senders.
    pub fn new(instance_id: u128, prefix: Option<String>) -> (multiplexer: ActivityMultiplexer<S>)
        ensures
            multiplexer.wf(),
            multiplexer.instance_id() == instance_id,
            multiplexer.prefix() == text_view(prefix),
            multiplexer.channels() == Map::<Seq<char>, S>::empty(),
    {
        let multiplexer = ActivityMultiplexer { instance_id, prefix, channels: Vec::new() };
        assert(multiplexer.channels() =~= Map::<Seq<char>, S>::empty());
        multiplexer
    }

    /// The position of the sender registered under `key`.
    fn find(&self, key: &String) -> (found: Option<usize>)
        requires
            self.wf(),
        ensures
            match found {
                Some(i) => i < self.channels@.len() && self.channels@[i as int].key@ == key@
                    && self.channels().contains_key(key@) && self.channels()[key@]
                    == self.channels@[i as int].sender,
                None => !self.channels().contains_key(key@),
            },
    {
        let mut i: usize = 0;
        while i < self.channels.len()
            invariant
                self.wf(),
                i <= self.channels@.len(),
                forall|j: int| 0 <= j < i ==> self.channels@[j].key@ != key@,
            decreases self.channels@.len() - i,
        {
            if self.channels[i].key == *key {
                proof {
                    let at = i as int;
                    assert(0 <= at < self.channels@.len() && self.channels@[at].key@ == key@);
                    let chosen = self.position(key@);
                    assert(0 <= chosen < self.channels@.len() && self.channels@[chosen].key@
                        == key@);
                    assert(chosen == at);
                }
                return Some(i);
            }
            i += 1;
        }
        None
    }

    /// The number of keys registered.
    pub fn len(&self) -> (n: usize)
        requires
            self.wf(),
        ensures
            n == self.channels().dom().len(),
            self.channels().dom().finite(),
    {
        proof {
            self.lemma_domain_len(self.channels@.len() as int);
            assert(self.keys_below(self.channels@.len() as int) =~= self.channels().dom());
        }
        self.channels.len()
    }

    spec fn keys_below(&self, n: int) -> Set<Seq<char>> {
        Set::new(|key: Seq<char>| exists|i: int| 0 <= i < n && self.channels@[i].key@ == key)
    }

    proof fn lemma_domain_len(&self, n: int)
        requires
            0 <= n <= self.channels@.len(),
            self.wf(),
        ensures
            self.keys_below(n).finite(),
            self.keys_below(n).len() == n,
        decreases n,
    {
        if n == 0 {
            assert(self.keys_below(0) =~= Set::empty());
        } else {
            self.lemma_domain_len(n - 1);
            let last = self.channels@[n - 1].key@;
            assert(self.keys_below(n) =~= self.keys_below(n - 1).insert(last));
            assert(!self.keys_below(n - 1).contains(last));
        }
    }

    /// Decides the subscription to `filters`. Where a sender is registered
    /// under the key of the filter, the subscriber attaches to it and nothing
    /// is created. Where none is, the subscriber is told what to create: the
    /// consumer of this instance for the filter, and a channel of the fixed
    /// capacity.
    pub fn subscribe(&self, filters: &Option<Vec<ActivityPayloadDiscriminants>>) -> (r: Subscription<
        '_,
        S,
    >)
        requires
            self.wf(),
        ensures
            match decide(self.channels(), multiplex_key(filter_view(*filters))) {
                Decision::Attach(sender) => r matches Subscription::Attach(s) && *s == sender,
                Decision::Open => r matches Subscription::Open(request) && request.key@
                    == multiplex_key(filter_view(*filters)) && request.config@ == stream_config(
                    self.prefix(),
                    self.instance_id(),
                    filter_view(*filters),
                ) && request.capacity == BROADCAST_CAPACITY,
            },
    {
        let key = filter_key(filters);
        match self.find(&key) {
            Some(i) => Subscription::Attach(&self.channels[i].sender),
            None => {
                let prefix = match &self.prefix {
                    Some(p) => Some(p.as_str()),
                    None => None,
                };
                let config = ActivityStream::consumer_config(prefix, self.instance_id, filters);
                Subscription::Open(StreamRequest { key, config, capacity: BROADCAST_CAPACITY })
            },
        }
    }

    /// Registers `sender` under `key`, unless a sender is registered there
    /// already: then nothing changes and `sender` comes back.
    pub fn register(&mut self, key: String, sender: S) -> (rejected: Option<S>)
        requires
            old(self).wf(),
        ensures
            final(self).wf(),
            final(self).channels() == registered(old(self).channels(), key@, sender),
            final(self).instance_id() == old(self).instance_id(),
            final(self).prefix() == old(self).prefix(),
            rejected == if old(self).channels().contains_key(key@) {
                Some(sender)
            } else {
                None
            },
    {
        match self.find(&key) {
            Some(_) => Some(sender),
            None => {
                let ghost before = *self;
                let ghost key_view = key@;
                self.channels.push(Channel { key, sender });
                proof {
                    let after = *self;
                    let n = before.channels@.len() as int;
                    assert forall|k: Seq<char>| #[trigger]
                        after.channels().contains_key(k) == (before.channels().contains_key(k) || k
                            == key_view) by {
                        if before.channels().contains_key(k) {
                            let i = before.position(k);
                            assert(after.channels@[i].key@ == k);
                        }
                        if k == key_view {
                            assert(after.channels@[n].key@ == k);
                        }
                    }
                    assert forall|k: Seq<char>| #[trigger]
                        after.channels().contains_key(k) implies after.channels()[k] == registered(
                        before.channels(),
                        key_view,
                        sender,
                    )[k] by {
                        let i = after.position(k);
                        if k == key_view {
                            assert(i == n);
                        } else {
                            assert(i < n);
                            assert(before.channels@[i].key@ == k);
                            assert(before.position(k) == i);
                        }
                    }
                    assert(after.channels() =~= registered(before.channels(), key_view, sender));
                }
                None
            },
        }
    }
}

/// What reaches the task that feeds one broadcast channel.
#[derive(Clone, Debug, PartialEq, Eq)]
pub enum TaskEvent {
    /// The next activity of the upstream consumer.
    Activity(Activity),
    /// The end of the upstream consumer.
    UpstreamClosed,
    /// The signal to shut down.
    Cancelled,
}

/// What the task does next.
#[derive(Clone, Debug, PartialEq, Eq)]
pub enum TaskAction {
    /// Send the activity to the broadcast channel. That no subscriber
    /// listens is no error.
    Broadcast(Activity),
    /// Return.
    Stop,
}

/// The state of the task that forwards the activities of one consumer to one
/// broadcast channel: whether it has stopped.
#[derive(Clone, Copy, Debug, PartialEq, Eq, Structural)]
pub struct ActivityMultiplexerTask {
    pub stopped: bool,
}

impl ActivityMultiplexerTask {
    /// What the task does on `event`.
    pub open spec fn action_for(self, event: TaskEvent) -> TaskAction {
        match event {
            TaskEvent::Activity(activity) if !self.stopped => TaskAction::Broadcast(activity),
            _ => TaskAction::Stop,
        }
    }

    /// The state after `event`: the task stops with the first event that is
    /// no activity.
    pub open spec fn state_after(self, event: TaskEvent) -> ActivityMultiplexerTask {
        ActivityMultiplexerTask { stopped: self.stopped || !(event is Activity) }
    }

    /// A task that forwards.
    pub fn new() -> (task: ActivityMultiplexerTask)
        ensures
            !task.stopped,
    {
        ActivityMultiplexerTask { stopped: false }
    }

    /// Takes one event: the shutdown signal stops the task, and everything
    /// else is for `process`.
    pub fn run(&mut self, event: TaskEvent) -> (action: TaskAction)
        ensures
            action == old(self).action_for(event),
            *final(self) == old(self).state_after(event),
    {
        match event {
            TaskEvent::Cancelled => {
                self.stopped = true;
                TaskAction::Stop
            },
            TaskEvent::Activity(activity) => self.process(Some(activity)),
            TaskEvent::UpstreamClosed => self.process(None),
        }
    }

    /// Takes what the upstream consumer handed over: an activity is to be
    /// broadcast, and the end of the consumer stops the task. A stopped task
    /// broadcasts nothing.
    pub fn process(&mut self, item: Option<Activity>) -> (action: TaskAction)
        ensures
            action == old(self).action_for(
                match item {
                    Some(activity) => TaskEvent::Activity(activity),
                    None => TaskEvent::UpstreamClosed,
                },
            ),
            final(self).stopped == (old(self).stopped || item is None),
    {
        match item {
            Some(activity) => {
                if self.stopped {
                    TaskAction::Stop
                } else {
                    TaskAction::Broadcast(activity)
                }
            },
            None => {
                self.stopped = true;
                TaskAction::Stop
            },
        }
    }
}

/// After the shutdown signal the task takes nothing in: whatever events
/// follow, it broadcasts none of them.
pub proof fn lemma_cancelled_task_broadcasts_nothing(
    task: ActivityMultiplexerTask,
    later: TaskEvent,
)
    ensures
        task.state_after(TaskEvent::Cancelled).stopped,
        task.state_after(TaskEvent::Cancelled).action_for(later) == TaskAction::Stop,
        task.state_after(TaskEvent::Cancelled).state_after(later).stopped,
{
}

} // verus!
