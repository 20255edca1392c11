//! The message registry: which message types a messenger can send and
//! receive, and how each one's body is serialized.
use crate::error::Error;
use vstd::prelude::*;

verus! {

/// Serializes the body of a message.
///
/// Implemented by the functions that a user registers for each message
/// type; the registry is agnostic about the format (bincode, JSON,
/// hand-written binary, ...).
pub trait BodySerializer<M: ?Sized> {
    /// Appends the serialized body of `msg` to `buf`.
    fn serialize_body(&self, msg: &M, buf: &mut Vec<u8>);
}

/// Deserializes the body of a message.
///
/// The bytes handed over are exactly the body that the framing layer
/// delimited.
pub trait BodyDeserializer<M: ?Sized> {
    /// Deserializes a message from `data`, or fails on malformed data.
    fn deserialize_body(&self, data: &[u8]) -> Result<Box<M>, Error>;
}

/// The serializer and the deserializer registered for one message type.
#[derive(Clone, Copy)]
pub struct CodecPair<S, D> {
    pub serializer: S,
    pub deserializer: D,
}

/// Maps message type identifiers to their serialization and
/// deserialization functions.
///
/// Each identifier occurs at most once; registering an identifier again
/// replaces its codec pair.
#[derive(Clone)]
pub struct MessageRegistry<S, D> {
    codecs: Vec<(String, CodecPair<S, D>)>,
}

/// The map that a list of (identifier, codec pair) entries describes; a later
/// entry for the same identifier wins.
pub open spec fn entries_map<S, D>(entries: Seq<(String, CodecPair<S, D>)>) -> Map<
    Seq<char>,
    CodecPair<S, D>,
>
    decreases entries.len(),
{
    if entries.len() == 0 {
        Map::empty()
    } else {
        entries_map(entries.drop_last()).insert(entries.last().0@, entries.last().1)
    }
}

impl<S, D> View for MessageRegistry<S, D> {
    type V = Map<Seq<char>, CodecPair<S, D>>;

    closed spec fn view(&self) -> Map<Seq<char>, CodecPair<S, D>> {
        entries_map(self.codecs@)
    }
}

/// Whether no identifier occurs twice among `entries`.
pub open spec fn distinct_ids<S, D>(entries: Seq<(String, CodecPair<S, D>)>) -> bool {
    forall|i: int, j: int|
        0 <= i < entries.len() && 0 <= j < entries.len() && i != j ==> entries[i].0@
            != entries[j].0@
}

/// With distinct identifiers, the map holds exactly the listed identifiers,
/// each with its listed codec pair.
proof fn lemma_entries_map<S, D>(entries: Seq<(String, CodecPair<S, D>)>)
    requires
        distinct_ids(entries),
    ensures
        forall|k: Seq<char>|
            entries_map(entries).contains_key(k) <==> exists|i: int|
                0 <= i < entries.len() && #[trigger] entries[i].0@ == k,
        forall|i: int|
            0 <= i < entries.len() ==> #[trigger] entries_map(entries)[entries[i].0@]
                == entries[i].1,
    decreases entries.len(),
{
    if entries.len() > 0 {
        let rest = entries.drop_last();
        assert(distinct_ids(rest));
        lemma_entries_map(rest);
        assert forall|k: Seq<char>|
            entries_map(entries).contains_key(k) <==> exists|i: int|
                0 <= i < entries.len() && #[trigger] entries[i].0@ == k by {
            if entries_map(entries).contains_key(k) && k != entries.last().0@ {
                assert(entries_map(rest).contains_key(k));
                let i = choose|i: int| 0 <= i < rest.len() && #[trigger] rest[i].0@ == k;
                assert(entries[i].0@ == k);
            }
            if entries_map(entries).contains_key(k) && k == entries.last().0@ {
                assert(entries[entries.len() - 1].0@ == k);
            }
            if exists|i: int| 0 <= i < entries.len() && #[trigger] entries[i].0@ == k {
                let i = choose|i: int| 0 <= i < entries.len() && #[trigger] entries[i].0@ == k;
                if i < rest.len() {
                    assert(rest[i].0@ == k);
                    assert(entries_map(rest).contains_key(k));
                }
            }
        }
        assert forall|i: int| 0 <= i < entries.len() implies #[trigger] entries_map(
            entries,
        )[entries[i].0@] == entries[i].1 by {
            if i < rest.len() {
                assert(rest[i] == entries[i]);
                assert(entries[i].0@ != entries[entries.len() - 1].0@);
                assert(entries_map(rest)[rest[i].0@] == rest[i].1);
            }
        }
    }
}

impl<S, D> MessageRegistry<S, D> {
    /// The registry's invariant: every identifier occurs at most once.
    pub closed spec fn wf(&self) -> bool {
        distinct_ids(self.codecs@)
    }

    /// Creates a new empty message registry.
    pub fn new() -> (r: Self)
        ensures
            r.wf(),
            r@ == Map::<Seq<char>, CodecPair<S, D>>::empty(),
    {
        Self { codecs: Vec::new() }
    }

    /// The position of `key` among the entries, if it is there.
    fn position(&self, key: &String) -> (r: Option<usize>)
        requires
            self.wf(),
        ensures
            match r {
                Some(i) => i < self.codecs@.len() && self.codecs@[i as int].0@ == key@,
                None => forall|i: int|
                    0 <= i < self.codecs@.len() ==> #[trigger] self.codecs@[i].0@ != key@,
            },
    {
        let mut i: usize = 0;
        while i < self.codecs.len()
            invariant
                i <= self.codecs@.len(),
                forall|j: int| 0 <= j < i ==> #[trigger] self.codecs@[j].0@ != key@,
            decreases self.codecs@.len() - i,
        {
            if self.codecs[i].0 == *key {
                return Some(i);
            }
            i = i + 1;
        }
        None
    }

    /// Registers a serializer/deserializer pair for the given message ID,
    /// replacing the pair registered before under that ID.
    pub fn register(&mut self, msg_id: &str, serializer: S, deserializer: D) -> (r: &mut Self)
        requires
            old(self).wf(),
        ensures
            r.wf(),
            r@ == old(self)@.insert(msg_id@, CodecPair { serializer, deserializer }),
            *final(self) == *final(r),
    {
        let key = msg_id.to_owned();
        let pair = CodecPair { serializer, deserializer };
        let ghost old_entries = self.codecs@;
        proof {
            lemma_entries_map(old_entries);
        }
        match self.position(&key) {
            Some(i) => {
                self.codecs[i] = (key, pair);
                proof {
                    assert(distinct_ids(self.codecs@));
                    lemma_entries_map(self.codecs@);
                    assert(self@ =~= old(self)@.insert(msg_id@, pair)) by {
                        assert forall|k: Seq<char>|
                            #[trigger] self@.contains_key(k) == old(self)@.insert(
                                msg_id@,
                                pair,
                            ).contains_key(k) by {
                            if old(self)@.contains_key(k) {
                                let j = choose|j: int|
                                    0 <= j < old_entries.len() && #[trigger] old_entries[j].0@
                                        == k;
                                assert(self.codecs@[j].0@ == k);
                            }
                            if self@.contains_key(k) {
                                let j = choose|j: int|
                                    0 <= j < self.codecs@.len() && #[trigger] self.codecs@[j].0@
                                        == k;
                                assert(j != i ==> old_entries[j].0@ == k);
                            }
                        }
                        assert forall|k: Seq<char>| #[trigger]
                            self@.contains_key(k) implies self@[k] == old(self)@.insert(
                            msg_id@,
                            pair,
                        )[k] by {
                            let j = choose|j: int|
                                0 <= j < self.codecs@.len() && #[trigger] self.codecs@[j].0@
                                    == k;
                            assert(self@[self.codecs@[j].0@] == self.codecs@[j].1);
                            if j != i {
                                assert(old(self)@[old_entries[j].0@] == old_entries[j].1);
                            }
                        }
                    }
                }
            },
            None => {
                self.codecs.push((key, pair));
                proof {
                    assert(self.codecs@.drop_last() == old_entries);
                    assert(distinct_ids(self.codecs@));
                }
            },
        }
        self
    }

    /// Gets the codec pair registered for a message ID, if any.
    pub fn get(&self, msg_id: &str) -> (r: Option<&CodecPair<S, D>>)
        requires
            self.wf(),
        ensures
            match r {
                Some(c) => self@.contains_key(msg_id@) && *c == self@[msg_id@],
                None => !self@.contains_key(msg_id@),
            },
    {
        let key = msg_id.to_owned();
        proof {
            lemma_entries_map(self.codecs@);
        }
        match self.position(&key) {
            Some(i) => Some(&self.codecs[i].1),
            None => None,
        }
    }
}

/// Registering a codec pair makes it the one that a lookup of its identifier
/// finds, and leaves every other identifier as it was.
pub proof fn law_register_then_get<S, D>(
    before: Map<Seq<char>, CodecPair<S, D>>,
    id: Seq<char>,
    pair: CodecPair<S, D>,
    other: Seq<char>,
)
    requires
        other != id,
    ensures
        before.insert(id, pair).contains_key(id),
        before.insert(id, pair)[id] == pair,
        before.insert(id, pair).contains_key(other) == before.contains_key(other),
        before.contains_key(other) ==> before.insert(id, pair)[other] == before[other],
{
}

} // verus!
