//! The broker's state: the topics, the next channel id of each topic, and
//! the queue channels of each topic.
use vstd::prelude::*;
use vstd::hash_map::StringHashMap;
use vstd::hash_set::StringHashSet;
use crate::assoc::{keys_unique, has_key, assoc_map, lemma_assoc_lookup, lemma_assoc_push,
    lemma_assoc_update, lemma_assoc_remove};
use crate::queue_lib::queue::Queue;
use crate::queue_lib::producer::Producer;
use crate::queue_lib::consumer::Consumer;

verus! {

/// What the broker holds, as mathematical values.
pub struct MemoryState {
    /// The topics that exist.
    pub topics: Set<Seq<char>>,
    /// For each topic, the id its next queue channel gets.
    pub max_ids: Map<Seq<char>, i32>,
    /// For each topic, its queue channels by id, each with its messages
    /// (oldest first).
    pub channels: Map<Seq<char>, Map<i32, Seq<i32>>>,
}

impl MemoryState {
    /// The three tables agree: each knows exactly the existing topics, and
    /// every channel id of a topic is below the id its next channel gets.
    pub open spec fn consistent(self) -> bool {
        &&& self.max_ids.dom() == self.topics
        &&& self.channels.dom() == self.topics
        &&& forall|t: Seq<char>|
            #![trigger self.max_ids[t]]
            self.topics.contains(t) ==> self.max_ids[t] >= 0
        &&& forall|t: Seq<char>, id: i32|
            #![trigger self.channels[t].contains_key(id)]
            self.topics.contains(t) && self.channels[t].contains_key(id) ==> 0 <= id
                < self.max_ids[t]
    }

    /// The state once `topic` is created: no channel yet, next id 0.
    pub open spec fn with_topic(self, topic: Seq<char>) -> MemoryState {
        MemoryState {
            topics: self.topics.insert(topic),
            max_ids: self.max_ids.insert(topic, 0),
            channels: self.channels.insert(topic, Map::empty()),
        }
    }

    /// The state once `topic` and everything it holds is gone.
    pub open spec fn without_topic(self, topic: Seq<char>) -> MemoryState {
        MemoryState {
            topics: self.topics.remove(topic),
            max_ids: self.max_ids.remove(topic),
            channels: self.channels.remove(topic),
        }
    }

    /// The state once `topic` has a new empty channel with the id its next
    /// channel gets.
    pub open spec fn with_new_channel(self, topic: Seq<char>) -> MemoryState {
        let id = self.max_ids[topic];
        MemoryState {
            topics: self.topics,
            max_ids: self.max_ids.insert(topic, (id + 1) as i32),
            channels: self.channels.insert(topic, self.channels[topic].insert(id, Seq::empty())),
        }
    }

    /// The state once channel `id` of `topic` is gone.
    pub open spec fn without_channel(self, topic: Seq<char>, id: i32) -> MemoryState {
        MemoryState {
            channels: self.channels.insert(topic, self.channels[topic].remove(id)),
            ..self
        }
    }

    /// The state once every channel of `topic` has `message` at its back.
    pub open spec fn with_published(self, topic: Seq<char>, message: i32) -> MemoryState {
        MemoryState {
            channels: self.channels.insert(
                topic,
                self.channels[topic].map_values(|q: Seq<i32>| q.push(message)),
            ),
            ..self
        }
    }

    /// The state once the oldest message of channel `id` of `topic` is taken.
    pub open spec fn with_taken(self, topic: Seq<char>, id: i32) -> MemoryState {
        MemoryState {
            channels: self.channels.insert(
                topic,
                self.channels[topic].insert(id, self.channels[topic][id].drop_first()),
            ),
            ..self
        }
    }
}

/// What reading a channel finds.
#[derive(Debug, Clone, Copy, PartialEq, Eq, Structural)]
pub enum ChannelRead {
    /// The topic has no channel with that id.
    NoChannel,
    /// The channel holds no message.
    Empty,
    /// The oldest message of the channel, now taken out.
    Message(i32),
}

struct QueueChannel {
    id: i32,
    queue: Queue<i32>,
}

struct TopicChannels {
    topic: String,
    channels: Vec<QueueChannel>,
}

spec fn channel_pairs(v: Seq<QueueChannel>) -> Seq<(i32, Seq<i32>)> {
    v.map_values(|c: QueueChannel| (c.id, c.queue@))
}

spec fn channel_map(v: Seq<QueueChannel>) -> Map<i32, Seq<i32>> {
    assoc_map(channel_pairs(v))
}

spec fn topic_pairs(v: Seq<TopicChannels>) -> Seq<(Seq<char>, Map<i32, Seq<i32>>)> {
    v.map_values(|t: TopicChannels| (t.topic@, channel_map(t.channels@)))
}

/// The broker's state. The topic set and the next ids are vstd's string-keyed
/// hash set and map. The channels are a list of `(topic, channels)` entries,
/// each channel list a list of `(id, queue)` entries, with no key twice in a
/// list (`wf`), read as maps: the channel queues are changed in place, and
/// vstd's `StringHashMap` hands out no mutable access to a value and gives
/// nothing back from `remove`, while `std::collections::HashMap` keyed by
/// `String` is specified only under `obeys_key_model::<String>()`, which vstd
/// does not establish. Within a topic the list lets a publication walk every
/// channel by position and change its queue in place.
pub struct SharedMemory {
    topics: StringHashSet,
    queue_channels: Vec<TopicChannels>,
    max_id_4_topic: StringHashMap<i32>,
}

impl View for SharedMemory {
    type V = MemoryState;

    closed spec fn view(&self) -> MemoryState {
        MemoryState {
            topics: self.topics@,
            max_ids: self.max_id_4_topic@,
            channels: assoc_map(topic_pairs(self.queue_channels@)),
        }
    }
}

proof fn lemma_assoc_map_values(s: Seq<(i32, Seq<i32>)>, m: i32)
    requires
        keys_unique(s),
    ensures
        keys_unique(s.map_values(|p: (i32, Seq<i32>)| (p.0, p.1.push(m)))),
        assoc_map(s.map_values(|p: (i32, Seq<i32>)| (p.0, p.1.push(m)))) == assoc_map(
            s,
        ).map_values(|q: Seq<i32>| q.push(m)),
{
    let t = s.map_values(|p: (i32, Seq<i32>)| (p.0, p.1.push(m)));
    assert forall|i: int, j: int| 0 <= i < t.len() && 0 <= j < t.len() && i != j implies #[trigger] t[i].0
        != #[trigger] t[j].0 by {
        assert(t[i].0 == s[i].0 && t[j].0 == s[j].0);
    }
    assert forall|key: i32| #[trigger] assoc_map(t).contains_key(key) <==> assoc_map(s).contains_key(key) by {
        if has_key(s, key) {
            let j = choose|j: int| 0 <= j < s.len() && #[trigger] s[j].0 == key;
            assert(t[j].0 == key);
        }
        if has_key(t, key) {
            let j = choose|j: int| 0 <= j < t.len() && #[trigger] t[j].0 == key;
            assert(s[j].0 == key);
        }
    }
    assert forall|key: i32| #[trigger] assoc_map(t).contains_key(key) implies assoc_map(t)[key] == assoc_map(
        s,
    ).map_values(|q: Seq<i32>| q.push(m))[key] by {
        let j = choose|j: int| 0 <= j < t.len() && #[trigger] t[j].0 == key;
        lemma_assoc_lookup(t, j);
        lemma_assoc_lookup(s, j);
    }
    assert(assoc_map(t) =~= assoc_map(s).map_values(|q: Seq<i32>| q.push(m)));
}

impl SharedMemory {
    /// The tables are well formed: no topic and no channel id of a topic is
    /// listed twice, and the state is consistent.
    pub closed spec fn wf(&self) -> bool {
        &&& keys_unique(topic_pairs(self.queue_channels@))
        &&& forall|i: int|
            0 <= i < self.queue_channels@.len() ==> keys_unique(
                channel_pairs(#[trigger] self.queue_channels@[i].channels@),
            )
        &&& self@.consistent()
    }

    /// A well-formed broker state is consistent, so the laws about
    /// `MemoryState` apply to it.
    pub proof fn lemma_wf_consistent(&self)
        requires
            self.wf(),
        ensures
            self@.consistent(),
    {
    }

    /// A broker with no topic.
    pub fn new() -> (m: SharedMemory)
        ensures
            m.wf(),
            m@.topics == Set::<Seq<char>>::empty(),
            m@.max_ids == Map::<Seq<char>, i32>::empty(),
            m@.channels == Map::<Seq<char>, Map<i32, Seq<i32>>>::empty(),
    {
        let m = SharedMemory {
            topics: StringHashSet::new(),
            queue_channels: Vec::new(),
            max_id_4_topic: StringHashMap::new(),
        };
        assert(assoc_map(topic_pairs(m.queue_channels@)) =~= Map::<
            Seq<char>,
            Map<i32, Seq<i32>>,
        >::empty());
        m
    }

    proof fn lemma_wf_entry(&self, i: int)
        requires
            self.wf(),
            0 <= i < self.queue_channels@.len(),
        ensures
            self@.topics.contains(self.queue_channels@[i].topic@),
            self@.channels[self.queue_channels@[i].topic@] == channel_map(
                self.queue_channels@[i].channels@,
            ),
            keys_unique(channel_pairs(self.queue_channels@[i].channels@)),
    {
        let tp = topic_pairs(self.queue_channels@);
        assert(tp[i] == (self.queue_channels@[i].topic@, channel_map(
            self.queue_channels@[i].channels@,
        )));
        lemma_assoc_lookup(tp, i);
    }

    /// The place of `topic` in the channel table.
    fn find_topic(&self, topic: &String) -> (r: Option<usize>)
        requires
            self.wf(),
        ensures
            match r {
                Some(i) => i < self.queue_channels@.len() && self.queue_channels@[i as int].topic@
                    == topic@,
                None => !self@.topics.contains(topic@),
            },
    {
        let mut i: usize = 0;
        while i < self.queue_channels.len()
            invariant
                i <= self.queue_channels@.len(),
                forall|j: int| 0 <= j < i ==> #[trigger] self.queue_channels@[j].topic@ != topic@,
            decreases self.queue_channels.len() - i,
        {
            if self.queue_channels[i].topic == *topic {
                return Some(i);
            }
            i = i + 1;
        }
        proof {
            let tp = topic_pairs(self.queue_channels@);
            if has_key(tp, topic@) {
                let j = choose|j: int| 0 <= j < tp.len() && #[trigger] tp[j].0 == topic@;
                assert(tp[j].0 == self.queue_channels@[j].topic@);
            }
        }
        None
    }

    /// Whether `topic` exists.
    pub fn contains_topic(&self, topic: &String) -> (r: bool)
        ensures
            r == self@.topics.contains(topic@),
    {
        self.topics.contains(topic.as_str())
    }

    /// The id that the next channel of `topic` gets.
    pub fn next_channel_id(&self, topic: &String) -> (id: i32)
        requires
            self.wf(),
            self@.topics.contains(topic@),
        ensures
            id == self@.max_ids[topic@],
    {
        match self.max_id_4_topic.get(topic.as_str()) {
            Some(id) => *id,
            None => 0,
        }
    }

    /// Creates `topic` with no channel and next channel id 0.
    pub fn add_topic(&mut self, topic: &String)
        requires
            old(self).wf(),
            !old(self)@.topics.contains(topic@),
        ensures
            final(self).wf(),
            final(self)@ == old(self)@.with_topic(topic@),
    {
        let ghost before = self@;
        let ghost tp = topic_pairs(self.queue_channels@);
        self.topics.insert(topic.clone());
        self.max_id_4_topic.insert(topic.clone(), 0);
        let entry = TopicChannels { topic: topic.clone(), channels: Vec::new() };
        assert(channel_map(entry.channels@) =~= Map::<i32, Seq<i32>>::empty());
        let ghost old_qc = self.queue_channels@;
        self.queue_channels.push(entry);
        proof {
            assert(!has_key(tp, topic@));
            assert(topic_pairs(self.queue_channels@) =~= tp.push((topic@, Map::empty())));
            lemma_assoc_push(tp, topic@, Map::empty());
            assert forall|i: int| 0 <= i < self.queue_channels@.len() implies keys_unique(
                channel_pairs(#[trigger] self.queue_channels@[i].channels@),
            ) by {
                if i < old_qc.len() {
                    assert(self.queue_channels@[i] == old_qc[i]);
                } else {
                    assert(channel_pairs(self.queue_channels@[i].channels@).len() == 0);
                }
            }
            let now = self@;
            assert(now.topics == before.topics.insert(topic@));
            assert(now.max_ids == before.max_ids.insert(topic@, 0));
            assert(now.channels == before.channels.insert(topic@, Map::empty()));
            assert(now.max_ids.dom() =~= now.topics);
            assert(now.channels.dom() =~= now.topics);
        }
    }

    /// Removes `topic` from all three tables.
    pub fn remove_topic_entries(&mut self, topic: &String)
        requires
            old(self).wf(),
            old(self)@.topics.contains(topic@),
        ensures
            final(self).wf(),
            final(self)@ == old(self)@.without_topic(topic@),
    {
        let ghost before = self@;
        let ghost tp = topic_pairs(self.queue_channels@);
        let ghost old_qc = self.queue_channels@;
        match self.find_topic(topic) {
            Some(i) => {
                self.topics.remove(topic.as_str());
                self.max_id_4_topic.remove(topic.as_str());
                self.queue_channels.remove(i);
                proof {
                    assert(topic_pairs(self.queue_channels@) =~= tp.remove(i as int));
                    lemma_assoc_remove(tp, i as int);
                    assert(tp[i as int].0 == topic@);
                    assert forall|j: int| 0 <= j < self.queue_channels@.len() implies keys_unique(
                        channel_pairs(#[trigger] self.queue_channels@[j].channels@),
                    ) by {
                        if j < i {
                            assert(self.queue_channels@[j] == old_qc[j]);
                        } else {
                            assert(self.queue_channels@[j] == old_qc[j + 1]);
                        }
                    }
                    let now = self@;
                    assert(now.max_ids.dom() =~= now.topics);
                    assert(now.channels.dom() =~= now.topics);
                }
            },
            None => {},
        }
    }

    /// Gives `topic` a new empty channel with the id its next channel gets,
    /// and returns that id.
    pub fn open_channel(&mut self, topic: &String) -> (id: i32)
        requires
            old(self).wf(),
            old(self)@.topics.contains(topic@),
            old(self)@.max_ids[topic@] < i32::MAX,
        ensures
            final(self).wf(),
            id == old(self)@.max_ids[topic@],
            final(self)@ == old(self)@.with_new_channel(topic@),
    {
        let ghost before = self@;
        let ghost tp = topic_pairs(self.queue_channels@);
        let ghost old_qc = self.queue_channels@;
        let id = self.next_channel_id(topic);
        match self.find_topic(topic) {
            Some(i) => {
                proof {
                    self.lemma_wf_entry(i as int);
                }
                self.max_id_4_topic.insert(topic.clone(), id + 1);
                let ghost old_channels = self.queue_channels@[i as int].channels@;
                let ghost cp = channel_pairs(old_channels);
                assert(!has_key(cp, id)) by {
                    if has_key(cp, id) {
                        let j = choose|j: int| 0 <= j < cp.len() && #[trigger] cp[j].0 == id;
                        lemma_assoc_lookup(cp, j);
                        assert(before.channels[topic@].contains_key(id));
                    }
                }
                self.queue_channels[i].channels.push(QueueChannel { id, queue: Queue::new() });
                proof {
                    let new_channels = self.queue_channels@[i as int].channels@;
                    assert(channel_pairs(new_channels) =~= cp.push((id, Seq::empty())));
                    lemma_assoc_push(cp, id, Seq::empty());
                    assert(self.queue_channels@ =~= old_qc.update(
                        i as int,
                        self.queue_channels@[i as int],
                    ));
                    assert(topic_pairs(self.queue_channels@) =~= tp.update(
                        i as int,
                        (tp[i as int].0, channel_map(new_channels)),
                    ));
                    lemma_assoc_update(tp, i as int, channel_map(new_channels));
                    assert forall|j: int| 0 <= j < self.queue_channels@.len() implies keys_unique(
                        channel_pairs(#[trigger] self.queue_channels@[j].channels@),
                    ) by {
                        if j != i {
                            assert(self.queue_channels@[j] == old_qc[j]);
                        }
                    }
                    let now = self@;
                    assert(now.max_ids.dom() =~= now.topics);
                    assert(now.channels.dom() =~= now.topics);
                    assert forall|t: Seq<char>, cid: i32|
                        #![trigger now.channels[t].contains_key(cid)]
                        now.topics.contains(t) && now.channels[t].contains_key(cid) implies 0 <= cid
                        < now.max_ids[t] by {
                        if t == topic@ {
                            if cid != id {
                                assert(before.channels[t].contains_key(cid));
                            }
                        } else {
                            assert(before.channels[t].contains_key(cid));
                        }
                    }
                    assert(now == before.with_new_channel(topic@));
                }
            },
            None => {},
        }
        id
    }

    /// The place of channel `id` in a channel list.
    fn find_channel(channels: &Vec<QueueChannel>, id: i32) -> (r: Option<usize>)
        requires
            keys_unique(channel_pairs(channels@)),
        ensures
            match r {
                Some(j) => j < channels@.len() && channels@[j as int].id == id,
                None => !channel_map(channels@).contains_key(id),
            },
    {
        let mut j: usize = 0;
        while j < channels.len()
            invariant
                j <= channels@.len(),
                forall|k: int| 0 <= k < j ==> #[trigger] channels@[k].id != id,
            decreases channels.len() - j,
        {
            if channels[j].id == id {
                return Some(j);
            }
            j = j + 1;
        }
        proof {
            let cp = channel_pairs(channels@);
            if has_key(cp, id) {
                let k = choose|k: int| 0 <= k < cp.len() && #[trigger] cp[k].0 == id;
                assert(cp[k].0 == channels@[k].id);
            }
        }
        None
    }

    /// Removes channel `id` of `topic`; tells whether there was one.
    pub fn close_channel(&mut self, topic: &String, id: i32) -> (r: bool)
        requires
            old(self).wf(),
            old(self)@.topics.contains(topic@),
        ensures
            final(self).wf(),
            r == old(self)@.channels[topic@].contains_key(id),
            r ==> final(self)@ == old(self)@.without_channel(topic@, id),
            !r ==> final(self)@ == old(self)@,
    {
        let ghost before = self@;
        let ghost tp = topic_pairs(self.queue_channels@);
        let ghost old_qc = self.queue_channels@;
        match self.find_topic(topic) {
            Some(i) => {
                proof {
                    self.lemma_wf_entry(i as int);
                }
                let ghost old_channels = self.queue_channels@[i as int].channels@;
                let ghost cp = channel_pairs(old_channels);
                match Self::find_channel(&self.queue_channels[i].channels, id) {
                    Some(j) => {
                        self.queue_channels[i].channels.remove(j);
                        proof {
                            let new_channels = self.queue_channels@[i as int].channels@;
                            assert(channel_pairs(new_channels) =~= cp.remove(j as int));
                            lemma_assoc_remove(cp, j as int);
                            lemma_assoc_lookup(cp, j as int);
                            assert(cp[j as int].0 == id);
                            assert(self.queue_channels@ =~= old_qc.update(
                                i as int,
                                self.queue_channels@[i as int],
                            ));
                            assert(topic_pairs(self.queue_channels@) =~= tp.update(
                                i as int,
                                (tp[i as int].0, channel_map(new_channels)),
                            ));
                            lemma_assoc_update(tp, i as int, channel_map(new_channels));
                            assert forall|k: int| 0 <= k < self.queue_channels@.len() implies keys_unique(
                                channel_pairs(#[trigger] self.queue_channels@[k].channels@),
                            ) by {
                                if k != i {
                                    assert(self.queue_channels@[k] == old_qc[k]);
                                }
                            }
                            let now = self@;
                            assert(now.channels.dom() =~= now.topics);
                            assert forall|t: Seq<char>, cid: i32|
                                #![trigger now.channels[t].contains_key(cid)]
                                now.topics.contains(t) && now.channels[t].contains_key(
                                    cid,
                                ) implies 0 <= cid < now.max_ids[t] by {
                                assert(before.channels[t].contains_key(cid));
                            }
                            assert(now == before.without_channel(topic@, id));
                        }
                        true
                    },
                    None => false,
                }
            },
            None => false,
        }
    }

    /// Puts `message` at the back of every channel of `topic`.
    pub fn publish_to_channels(&mut self, topic: &String, message: i32)
        requires
            old(self).wf(),
            old(self)@.topics.contains(topic@),
        ensures
            final(self).wf(),
            final(self)@ == old(self)@.with_published(topic@, message),
    {
        let ghost before = self@;
        let ghost tp = topic_pairs(self.queue_channels@);
        let ghost old_qc = self.queue_channels@;
        match self.find_topic(topic) {
            Some(i) => {
                proof {
                    self.lemma_wf_entry(i as int);
                }
                let ghost old_channels = self.queue_channels@[i as int].channels@;
                let ghost cp = channel_pairs(old_channels);
                let n = self.queue_channels[i].channels.len();
                let mut j: usize = 0;
                while j < n
                    invariant
                        self.topics@ == before.topics,
                        self.max_id_4_topic@ == before.max_ids,
                        i < self.queue_channels@.len(),
                        self.queue_channels@.len() == old_qc.len(),
                        forall|k: int|
                            0 <= k < old_qc.len() && k != i ==> #[trigger] self.queue_channels@[k]
                                == old_qc[k],
                        self.queue_channels@[i as int].topic == old_qc[i as int].topic,
                        self.queue_channels@[i as int].channels@.len() == n,
                        n == old_channels.len(),
                        j <= n,
                        forall|k: int|
                            0 <= k < n ==> (#[trigger] self.queue_channels@[i as int].channels@[k]).id
                                == old_channels[k].id,
                        forall|k: int|
                            0 <= k < n ==> (#[trigger] self.queue_channels@[i as int].channels@[k]).queue@
                                == if k < j {
                                old_channels[k].queue@.push(message)
                            } else {
                                old_channels[k].queue@
                            },
                    decreases n - j,
                {
                    Producer::new().push(&mut self.queue_channels[i].channels[j].queue, message);
                    j = j + 1;
                }
                proof {
                    let new_channels = self.queue_channels@[i as int].channels@;
                    assert(channel_pairs(new_channels) =~= cp.map_values(
                        |p: (i32, Seq<i32>)| (p.0, p.1.push(message)),
                    ));
                    lemma_assoc_map_values(cp, message);
                    assert(self.queue_channels@ =~= old_qc.update(
                        i as int,
                        self.queue_channels@[i as int],
                    ));
                    assert(topic_pairs(self.queue_channels@) =~= tp.update(
                        i as int,
                        (tp[i as int].0, channel_map(new_channels)),
                    ));
                    lemma_assoc_update(tp, i as int, channel_map(new_channels));
                    assert forall|k: int| 0 <= k < self.queue_channels@.len() implies keys_unique(
                        channel_pairs(#[trigger] self.queue_channels@[k].channels@),
                    ) by {
                        if k != i {
                            assert(self.queue_channels@[k] == old_qc[k]);
                        }
                    }
                    let now = self@;
                    assert(now.channels.dom() =~= now.topics);
                    assert forall|t: Seq<char>, cid: i32|
                        #![trigger now.channels[t].contains_key(cid)]
                        now.topics.contains(t) && now.channels[t].contains_key(cid) implies 0 <= cid
                        < now.max_ids[t] by {
                        assert(before.channels[t].contains_key(cid));
                    }
                    assert(now == before.with_published(topic@, message));
                }
            },
            None => {},
        }
    }

    /// Takes the oldest message of channel `id` of `topic`.
    pub fn take_message(&mut self, topic: &String, id: i32) -> (r: ChannelRead)
        requires
            old(self).wf(),
            old(self)@.topics.contains(topic@),
        ensures
            final(self).wf(),
            !old(self)@.channels[topic@].contains_key(id) ==> r == ChannelRead::NoChannel
                && final(self)@ == old(self)@,
            old(self)@.channels[topic@].contains_key(id) && old(self)@.channels[topic@][id].len()
                == 0 ==> r == ChannelRead::Empty && final(self)@ == old(self)@,
            old(self)@.channels[topic@].contains_key(id) && old(self)@.channels[topic@][id].len()
                > 0 ==> r == ChannelRead::Message(old(self)@.channels[topic@][id][0])
                && final(self)@ == old(self)@.with_taken(topic@, id),
    {
        let ghost before = self@;
        let ghost tp = topic_pairs(self.queue_channels@);
        let ghost old_qc = self.queue_channels@;
        match self.find_topic(topic) {
            Some(i) => {
                proof {
                    self.lemma_wf_entry(i as int);
                }
                let ghost old_channels = self.queue_channels@[i as int].channels@;
                let ghost cp = channel_pairs(old_channels);
                match Self::find_channel(&self.queue_channels[i].channels, id) {
                    Some(j) => {
                        proof {
                            lemma_assoc_lookup(cp, j as int);
                        }
                        if self.queue_channels[i].channels[j].queue.is_empty() {
                            return ChannelRead::Empty;
                        }
                        let taken = Consumer::new().pop(&mut self.queue_channels[i].channels[j].queue);
                        proof {
                            let new_channels = self.queue_channels@[i as int].channels@;
                            let q = old_channels[j as int].queue@;
                            assert(channel_pairs(new_channels) =~= cp.update(
                                j as int,
                                (id, q.drop_first()),
                            ));
                            lemma_assoc_update(cp, j as int, q.drop_first());
                            assert(self.queue_channels@ =~= old_qc.update(
                                i as int,
                                self.queue_channels@[i as int],
                            ));
                            assert(topic_pairs(self.queue_channels@) =~= tp.update(
                                i as int,
                                (tp[i as int].0, channel_map(new_channels)),
                            ));
                            lemma_assoc_update(tp, i as int, channel_map(new_channels));
                            assert forall|k: int| 0 <= k < self.queue_channels@.len() implies keys_unique(
                                channel_pairs(#[trigger] self.queue_channels@[k].channels@),
                            ) by {
                                if k != i {
                                    assert(self.queue_channels@[k] == old_qc[k]);
                                }
                            }
                            let now = self@;
                            assert(now.channels.dom() =~= now.topics);
                            assert forall|t: Seq<char>, cid: i32|
                                #![trigger now.channels[t].contains_key(cid)]
                                now.topics.contains(t) && now.channels[t].contains_key(
                                    cid,
                                ) implies 0 <= cid < now.max_ids[t] by {
                                assert(before.channels[t].contains_key(cid));
                            }
                            assert(now == before.with_taken(topic@, id));
                        }
                        match taken {
                            Some(message) => ChannelRead::Message(message),
                            None => ChannelRead::Empty,
                        }
                    },
                    None => ChannelRead::NoChannel,
                }
            },
            None => ChannelRead::NoChannel,
        }
    }
}

} // verus!

verus! {

/// Every change the broker makes keeps its state consistent: creating a
/// missing topic, removing an existing one, opening a channel (below the id
/// limit), closing one, publishing to a topic and taking a message from an
/// existing channel.
pub proof fn lemma_changes_keep_consistency(s: MemoryState, topic: Seq<char>, id: i32, message: i32)
    requires
        s.consistent(),
    ensures
        !s.topics.contains(topic) ==> s.with_topic(topic).consistent(),
        s.topics.contains(topic) ==> s.without_topic(topic).consistent(),
        s.topics.contains(topic) && s.max_ids[topic] < i32::MAX ==> s.with_new_channel(
            topic,
        ).consistent(),
        s.topics.contains(topic) ==> s.without_channel(topic, id).consistent(),
        s.topics.contains(topic) ==> s.with_published(topic, message).consistent(),
        s.topics.contains(topic) && s.channels[topic].contains_key(id) ==> s.with_taken(
            topic,
            id,
        ).consistent(),
{
    if !s.topics.contains(topic) {
        let n = s.with_topic(topic);
        assert(n.max_ids.dom() =~= n.topics);
        assert(n.channels.dom() =~= n.topics);
    }
    if s.topics.contains(topic) {
        let n = s.without_topic(topic);
        assert(n.max_ids.dom() =~= n.topics);
        assert(n.channels.dom() =~= n.topics);
        let c = s.without_channel(topic, id);
        assert(c.channels.dom() =~= c.topics);
        assert forall|t: Seq<char>, cid: i32|
            #![trigger c.channels[t].contains_key(cid)]
            c.topics.contains(t) && c.channels[t].contains_key(cid) implies 0 <= cid
            < c.max_ids[t] by {
            assert(s.channels[t].contains_key(cid));
        }
        let p = s.with_published(topic, message);
        assert(p.channels.dom() =~= p.topics);
        assert forall|t: Seq<char>, cid: i32|
            #![trigger p.channels[t].contains_key(cid)]
            p.topics.contains(t) && p.channels[t].contains_key(cid) implies 0 <= cid
            < p.max_ids[t] by {
            assert(s.channels[t].contains_key(cid));
        }
        if s.max_ids[topic] < i32::MAX {
            let o = s.with_new_channel(topic);
            assert(o.max_ids.dom() =~= o.topics);
            assert(o.channels.dom() =~= o.topics);
            assert forall|t: Seq<char>, cid: i32|
                #![trigger o.channels[t].contains_key(cid)]
                o.topics.contains(t) && o.channels[t].contains_key(cid) implies 0 <= cid
                < o.max_ids[t] by {
                if !(t == topic && cid == s.max_ids[topic]) {
                    assert(s.channels[t].contains_key(cid));
                }
            }
        }
        if s.channels[topic].contains_key(id) {
            let k = s.with_taken(topic, id);
            assert(k.channels.dom() =~= k.topics);
            assert forall|t: Seq<char>, cid: i32|
                #![trigger k.channels[t].contains_key(cid)]
                k.topics.contains(t) && k.channels[t].contains_key(cid) implies 0 <= cid
                < k.max_ids[t] by {
                assert(s.channels[t].contains_key(cid));
            }
        }
    }
}

/// Removing a topic that was just created gives back the state before.
pub proof fn lemma_remove_topic_undoes_new_topic(s: MemoryState, topic: Seq<char>)
    requires
        s.consistent(),
        !s.topics.contains(topic),
    ensures
        s.with_topic(topic).without_topic(topic) == s,
{
    let n = s.with_topic(topic).without_topic(topic);
    assert(n.topics =~= s.topics);
    assert(n.max_ids =~= s.max_ids);
    assert(n.channels =~= s.channels);
}

/// A new channel gets an id that no channel of its topic has, and the topic's
/// next id moves one up: ids are never handed out twice.
pub proof fn lemma_new_channel_id_is_fresh(s: MemoryState, topic: Seq<char>)
    requires
        s.consistent(),
        s.topics.contains(topic),
        s.max_ids[topic] < i32::MAX,
    ensures
        !s.channels[topic].contains_key(s.max_ids[topic]),
        s.with_new_channel(topic).max_ids[topic] == s.max_ids[topic] + 1,
        s.with_new_channel(topic).channels[topic].contains_key(s.max_ids[topic]),
        s.with_new_channel(topic).channels[topic][s.max_ids[topic]] == Seq::<i32>::empty(),
{
}

/// Closing the channel that was just opened gives back the channels before
/// (the next id stays moved on).
pub proof fn lemma_close_channel_undoes_open(s: MemoryState, topic: Seq<char>)
    requires
        s.consistent(),
        s.topics.contains(topic),
        s.max_ids[topic] < i32::MAX,
    ensures
        s.with_new_channel(topic).without_channel(topic, s.max_ids[topic]).channels == s.channels,
{
    let id = s.max_ids[topic];
    let n = s.with_new_channel(topic).without_channel(topic, id);
    assert(!s.channels[topic].contains_key(id));
    assert(n.channels[topic] =~= s.channels[topic]);
    assert(n.channels =~= s.channels);
}

/// A publication reaches every channel of its topic, at the back, and leaves
/// every other topic alone; taking from a channel gives its oldest message and
/// leaves the rest in order.
pub proof fn lemma_channels_deliver_in_order(
    s: MemoryState,
    topic: Seq<char>,
    id: i32,
    message: i32,
    other: Seq<char>,
)
    requires
        s.consistent(),
        s.topics.contains(topic),
        s.channels[topic].contains_key(id),
    ensures
        s.with_published(topic, message).channels[topic][id] == s.channels[topic][id].push(message),
        other != topic ==> s.with_published(topic, message).channels[other] == s.channels[other],
        s.with_published(topic, message).channels[topic].dom() == s.channels[topic].dom(),
        s.channels[topic][id].len() > 0 ==> s.with_taken(topic, id).channels[topic][id]
            == s.channels[topic][id].drop_first(),
        s.with_published(topic, message).with_taken(topic, id).channels[topic][id] == if s.channels[topic][id].len() == 0 {
            Seq::<i32>::empty()
        } else {
            s.channels[topic][id].drop_first().push(message)
        },
{
    let p = s.with_published(topic, message);
    assert(p.channels[topic].dom() =~= s.channels[topic].dom());
    let q = s.channels[topic][id];
    assert(q.push(message).drop_first() =~= if q.len() == 0 {
        Seq::<i32>::empty()
    } else {
        q.drop_first().push(message)
    });
}

} // verus!

verus! {

/// Closing a channel changes only the channels of its topic: every topic's
/// next channel id stays where it was, so an id once handed out is never
/// handed out again for that topic. Opening a channel, closing it and opening
/// another gives the second one the next id up.
pub proof fn lemma_close_channel_keeps_next_ids(s: MemoryState, topic: Seq<char>, id: i32)
    requires
        s.consistent(),
        s.topics.contains(topic),
    ensures
        s.without_channel(topic, id).max_ids == s.max_ids,
        s.without_channel(topic, id).topics == s.topics,
        !s.without_channel(topic, id).channels[topic].contains_key(id),
        forall|other: Seq<char>|
            other != topic ==> #[trigger] s.without_channel(topic, id).channels[other]
                == s.channels[other],
        s.max_ids[topic] < i32::MAX - 1 ==> ({
            let first = s.max_ids[topic];
            let reopened = s.with_new_channel(topic).without_channel(topic, first).with_new_channel(
                topic,
            );
            &&& reopened.max_ids[topic] == first + 2
            &&& reopened.channels[topic].contains_key((first + 1) as i32)
            &&& !reopened.channels[topic].contains_key(first)
        }),
{
    if s.max_ids[topic] < i32::MAX - 1 {
        let first = s.max_ids[topic];
        let s1 = s.with_new_channel(topic);
        let s2 = s1.without_channel(topic, first);
        assert(s2.max_ids[topic] == first + 1);
        let s3 = s2.with_new_channel(topic);
        assert(s3.channels[topic].contains_key((first + 1) as i32));
        assert((first + 1) as i32 != first);
    }
}

} // verus!
