//! A mailbox for live streams. A result that has to be stored or sent away
//! cannot hold the receiving end of a channel; it holds a key instead, and
//! the registry keeps the receiving end under that key until it is asked for
//! or has grown too old.

use vstd::prelude::*;
use crate::channel::{share_receiver, TokenItem};
use crate::job::{InferenceResult, SerializableInferenceResult};
use crate::table::{made_since, Table, Timestamped};

verus! {

/// How long a stream is kept unless configured otherwise: one hour.
pub const DEFAULT_RETENTION_MS: u64 = 3_600_000;

/// How often streams that have grown too old are to be purged: every five
/// minutes.
pub const CLEANUP_INTERVAL_MS: u64 = 300_000;

/// The receiving end of one live stream.
pub struct StreamingChannel {
    pub request_id: String,
    pub receiver: flume::Receiver<TokenItem>,
    /// The time of the registry at which the stream was registered.
    pub created_at_ms: u64,
}

impl Timestamped for StreamingChannel {
    open spec fn stamp(&self) -> u64 {
        self.created_at_ms
    }

    fn created_at(&self) -> (at: u64) {
        self.created_at_ms
    }
}

/// The time before which a stream must have been registered to be purged at
/// `now_ms`: a stream is purged once it is older than `retention_ms`.
pub open spec fn purge_cutoff(now_ms: u64, retention_ms: u64) -> u64 {
    if now_ms >= retention_ms {
        (now_ms - retention_ms) as u64
    } else {
        0
    }
}

/// Live streams by key, and the time as the registry knows it.
pub struct StreamingRegistry {
    channels: Table<StreamingChannel>,
    retention_ms: u64,
    now_ms: u64,
}

impl View for StreamingRegistry {
    type V = Map<Seq<char>, StreamingChannel>;

    closed spec fn view(&self) -> Map<Seq<char>, StreamingChannel> {
        self.channels@
    }
}

impl StreamingRegistry {
    pub closed spec fn wf(&self) -> bool {
        self.channels.wf()
    }

    /// A well-formed registry keeps finitely many streams.
    pub proof fn lemma_finite(&self)
        requires
            self.wf(),
        ensures
            self@.dom().finite(),
    {
        self.channels.lemma_finite();
    }

    pub closed spec fn spec_retention_ms(&self) -> u64 {
        self.retention_ms
    }

    pub closed spec fn spec_now_ms(&self) -> u64 {
        self.now_ms
    }

    /// An empty registry that keeps a stream for `retention_ms` milliseconds.
    /// Its time starts at 0.
    pub fn new(retention_ms: u64) -> (registry: Self)
        ensures
            registry.wf(),
            registry@ == Map::<Seq<char>, StreamingChannel>::empty(),
            registry.spec_retention_ms() == retention_ms,
            registry.spec_now_ms() == 0,
    {
        StreamingRegistry { channels: Table::new(), retention_ms, now_ms: 0 }
    }

    pub fn with_default_retention() -> (registry: Self)
        ensures
            registry.wf(),
            registry@ == Map::<Seq<char>, StreamingChannel>::empty(),
            registry.spec_retention_ms() == DEFAULT_RETENTION_MS,
            registry.spec_now_ms() == 0,
    {
        Self::new(DEFAULT_RETENTION_MS)
    }

    #[verifier::when_used_as_spec(spec_retention_ms)]
    pub fn retention_ms(&self) -> (ms: u64)
        ensures
            ms == self.spec_retention_ms(),
    {
        self.retention_ms
    }

    #[verifier::when_used_as_spec(spec_now_ms)]
    pub fn now_ms(&self) -> (ms: u64)
        ensures
            ms == self.spec_now_ms(),
    {
        self.now_ms
    }

    /// Tells the registry the time. Its time never runs backwards.
    pub fn advance_to(&mut self, now_ms: u64)
        requires
            old(self).wf(),
        ensures
            final(self).wf(),
            final(self)@ == old(self)@,
            final(self).spec_retention_ms() == old(self).spec_retention_ms(),
            final(self).spec_now_ms() == if now_ms > old(self).spec_now_ms() {
                now_ms
            } else {
                old(self).spec_now_ms()
            },
    {
        if now_ms > self.now_ms {
            self.now_ms = now_ms;
        }
    }

    /// Keeps `receiver` under `key`, in place of what was there.
    pub fn register(&mut self, key: String, request_id: String, receiver: flume::Receiver<TokenItem>)
        requires
            old(self).wf(),
        ensures
            final(self).wf(),
            final(self)@ == old(self)@.insert(
                key@,
                StreamingChannel { request_id, receiver, created_at_ms: old(self).spec_now_ms() },
            ),
            final(self).spec_retention_ms() == old(self).spec_retention_ms(),
            final(self).spec_now_ms() == old(self).spec_now_ms(),
    {
        let channel = StreamingChannel { request_id, receiver, created_at_ms: self.now_ms };
        let _ = self.channels.insert(key, channel);
    }

    /// The stream kept under `key`. It stays in the registry.
    pub fn get(&self, key: &str) -> (channel: Option<&StreamingChannel>)
        requires
            self.wf(),
        ensures
            match channel {
                Some(held) => self@.contains_key(key@) && *held == self@[key@],
                None => !self@.contains_key(key@),
            },
    {
        self.channels.get(key)
    }

    /// A handle to the receiving end kept under `key`. The stream stays in the
    /// registry, so the handle can be asked for again.
    pub fn retrieve(&self, key: &str) -> (receiver: Option<flume::Receiver<TokenItem>>)
        requires
            self.wf(),
        ensures
            receiver is Some <==> self@.contains_key(key@),
    {
        match self.channels.get(key) {
            Some(channel) => Some(share_receiver(&channel.receiver)),
            None => None,
        }
    }

    /// Takes the stream under `key` out and hands it over: whoever takes a
    /// stream owns it alone.
    pub fn take(&mut self, key: &str) -> (channel: Option<StreamingChannel>)
        requires
            old(self).wf(),
        ensures
            final(self).wf(),
            channel == if old(self)@.contains_key(key@) {
                Some(old(self)@[key@])
            } else {
                None
            },
            final(self)@ == old(self)@.remove(key@),
            final(self).spec_retention_ms() == old(self).spec_retention_ms(),
            final(self).spec_now_ms() == old(self).spec_now_ms(),
    {
        self.channels.remove(key)
    }

    /// Takes the stream under `key` out, and says whether there was one.
    pub fn remove(&mut self, key: &str) -> (removed: bool)
        requires
            old(self).wf(),
        ensures
            final(self).wf(),
            removed == old(self)@.contains_key(key@),
            final(self)@ == old(self)@.remove(key@),
            !removed ==> final(self)@ == old(self)@,
            final(self).spec_retention_ms() == old(self).spec_retention_ms(),
            final(self).spec_now_ms() == old(self).spec_now_ms(),
    {
        let removed = self.channels.remove(key).is_some();
        proof {
            if !removed {
                assert(old(self)@.remove(key@) =~= old(self)@);
            }
        }
        removed
    }

    pub fn len(&self) -> (count: usize)
        requires
            self.wf(),
        ensures
            count == self@.len(),
    {
        self.channels.len()
    }

    pub fn is_empty(&self) -> (empty: bool)
        requires
            self.wf(),
        ensures
            empty == (self@.len() == 0),
    {
        self.channels.is_empty()
    }

    /// Purges the streams that are older than the retention window, and says
    /// how many they were.
    pub fn cleanup_expired(&mut self) -> (purged: usize)
        requires
            old(self).wf(),
        ensures
            final(self).wf(),
            final(self)@ == made_since(
                old(self)@,
                purge_cutoff(old(self).spec_now_ms(), old(self).spec_retention_ms()),
            ),
            purged == old(self)@.len() - final(self)@.len(),
            final(self).spec_retention_ms() == old(self).spec_retention_ms(),
            final(self).spec_now_ms() == old(self).spec_now_ms(),
    {
        let cutoff: u64 = if self.now_ms >= self.retention_ms {
            self.now_ms - self.retention_ms
        } else {
            0
        };
        self.channels.remove_older_than(cutoff)
    }

    /// Puts `result` to rest. The receiving end of a stream goes into the
    /// registry under `channel_key`, and the result that is handed back names
    /// that key; any other result is handed back as it is.
    pub fn park(&mut self, result: InferenceResult, channel_key: String) -> (parked:
        SerializableInferenceResult)
        requires
            old(self).wf(),
        ensures
            final(self).wf(),
            final(self).spec_retention_ms() == old(self).spec_retention_ms(),
            final(self).spec_now_ms() == old(self).spec_now_ms(),
            match result {
                InferenceResult::Streaming { request_id, chunk_rx } => {
                    &&& parked == (SerializableInferenceResult::StreamingChannel {
                        request_id,
                        channel_key,
                    })
                    &&& final(self)@ == old(self)@.insert(
                        channel_key@,
                        StreamingChannel {
                            request_id,
                            receiver: chunk_rx,
                            created_at_ms: old(self).spec_now_ms(),
                        },
                    )
                },
                InferenceResult::ChatCompletion(response) => {
                    &&& parked == SerializableInferenceResult::ChatCompletion(response)
                    &&& final(self)@ == old(self)@
                },
                InferenceResult::Completion(response) => {
                    &&& parked == SerializableInferenceResult::Completion(response)
                    &&& final(self)@ == old(self)@
                },
                InferenceResult::Error { message } => {
                    &&& parked == (SerializableInferenceResult::Error { message })
                    &&& final(self)@ == old(self)@
                },
            },
    {
        match result {
            InferenceResult::Streaming { request_id, chunk_rx } => {
                self.register(channel_key.clone(), request_id.clone(), chunk_rx);
                SerializableInferenceResult::StreamingChannel { request_id, channel_key }
            },
            InferenceResult::ChatCompletion(response) => SerializableInferenceResult::ChatCompletion(
                response,
            ),
            InferenceResult::Completion(response) => SerializableInferenceResult::Completion(
                response,
            ),
            InferenceResult::Error { message } => SerializableInferenceResult::Error { message },
        }
    }

    /// Brings a result at rest back to life. A result that names a key comes
    /// back with a handle to the stream kept under that key, or not at all if
    /// the registry keeps none; any other result comes back as it is.
    pub fn resume(&self, parked: SerializableInferenceResult) -> (result: Option<InferenceResult>)
        requires
            self.wf(),
        ensures
            match parked {
                SerializableInferenceResult::StreamingChannel { request_id, channel_key } => {
                    &&& result is Some <==> self@.contains_key(channel_key@)
                    &&& result matches Some(live) ==> live matches InferenceResult::Streaming {
                        request_id: id,
                        ..
                    } && id == request_id
                },
                SerializableInferenceResult::ChatCompletion(response) => result == Some(
                    InferenceResult::ChatCompletion(response),
                ),
                SerializableInferenceResult::Completion(response) => result == Some(
                    InferenceResult::Completion(response),
                ),
                SerializableInferenceResult::Error { message } => result == Some(
                    InferenceResult::Error { message },
                ),
            },
    {
        match parked {
            SerializableInferenceResult::StreamingChannel { request_id, channel_key } => {
                match self.retrieve(channel_key.as_str()) {
                    Some(chunk_rx) => Some(InferenceResult::Streaming { request_id, chunk_rx }),
                    None => None,
                }
            },
            SerializableInferenceResult::ChatCompletion(response) => Some(
                InferenceResult::ChatCompletion(response),
            ),
            SerializableInferenceResult::Completion(response) => Some(
                InferenceResult::Completion(response),
            ),
            SerializableInferenceResult::Error { message } => Some(
                InferenceResult::Error { message },
            ),
        }
    }
}

/// A stream that is registered can be had back under its key, as often as it
/// is asked for; once it is removed it cannot; and each step changes the
/// number of streams by what it added or took.
pub proof fn lemma_registry_round_trip(
    streams: Map<Seq<char>, StreamingChannel>,
    key: Seq<char>,
    channel: StreamingChannel,
)
    requires
        streams.dom().finite(),
    ensures
        streams.insert(key, channel).contains_key(key),
        streams.insert(key, channel)[key] == channel,
        streams.insert(key, channel).len() == streams.len() + if streams.contains_key(key) {
            0nat
        } else {
            1nat
        },
        !streams.insert(key, channel).remove(key).contains_key(key),
        streams.insert(key, channel).remove(key).len() + 1 == streams.insert(key, channel).len(),
        streams.insert(key, channel).remove(key) == streams.remove(key),
        forall|other: Seq<char>|
            other != key ==> (streams.insert(key, channel).remove(key).contains_key(other)
                <==> streams.contains_key(other)),
{
    assert(streams.insert(key, channel).remove(key) =~= streams.remove(key));
    assert(streams.insert(key, channel).dom() =~= streams.dom().insert(key));
    assert(streams.insert(key, channel).remove(key).dom() =~= streams.insert(key, channel).dom().remove(
        key,
    ));
}

/// A stream outlives a purge exactly if it is not older than the retention
/// window, and a purge leaves nothing for the next one at the same time.
pub proof fn lemma_purge(streams: Map<Seq<char>, StreamingChannel>, now_ms: u64, retention_ms: u64)
    ensures
        forall|key: Seq<char>|
            #![trigger made_since(streams, purge_cutoff(now_ms, retention_ms)).contains_key(key)]
            made_since(streams, purge_cutoff(now_ms, retention_ms)).contains_key(key) <==> (
            streams.contains_key(key) && now_ms - streams[key].created_at_ms <= retention_ms),
        made_since(
            made_since(streams, purge_cutoff(now_ms, retention_ms)),
            purge_cutoff(now_ms, retention_ms),
        ) == made_since(streams, purge_cutoff(now_ms, retention_ms)),
{
    let cutoff = purge_cutoff(now_ms, retention_ms);
    assert(made_since(made_since(streams, cutoff), cutoff) =~= made_since(streams, cutoff));
}

} // verus!
