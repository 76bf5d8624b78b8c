use vstd::prelude::*;
use std::collections::HashMap;
use rand::rngs::ThreadRng;
use crate::message::ChatMessage;
use vstd::std_specs::iter::IteratorSpec;

verus! {

broadcast use vstd::std_specs::hash::group_hash_axioms;

#[verifier::external_type_specification]
#[verifier::external_body]
pub struct ExThreadRng(rand::rngs::ThreadRng);

/// Relies on rand::rng: a handle to the thread-local generator.
#[verifier::external_body]
fn thread_rng() -> ThreadRng {
    rand::rng()
}

/// Relies on rand::Rng::random for `u32`: a uniformly drawn value, of which
/// nothing can be promised.
#[verifier::external_body]
fn random_u32(rng: &mut ThreadRng) -> u32 {
    rand::Rng::random::<u32>(rng)
}

/// Told of every message that enters the store.
pub trait MessageObserver<M> {
    fn on_message(&self, message: &M);
}

/// `b` holds the fields of `a`, save its identifier, which is `id`.
pub open spec fn is_stored_copy<M: ChatMessage>(b: M, a: M, id: u32) -> bool {
    &&& b.spec_id() == id
    &&& b.spec_content() == a.spec_content()
    &&& b.spec_author_id() == a.spec_author_id()
    &&& b.spec_timestamp() == a.spec_timestamp()
    &&& b.spec_is_own() == a.spec_is_own()
}

/// The identifiers of `ids` that `m` holds, in their order in `ids`.
pub open spec fn present_ids<M>(m: Map<u32, M>, ids: Seq<u32>) -> Seq<u32>
    decreases ids.len(),
{
    if ids.len() == 0 {
        Seq::empty()
    } else {
        let rest = present_ids(m, ids.drop_last());
        if m.contains_key(ids.last()) {
            rest.push(ids.last())
        } else {
            rest
        }
    }
}

proof fn lemma_present_ids_step<M>(m: Map<u32, M>, ids: Seq<u32>, i: int)
    requires
        0 <= i < ids.len(),
    ensures
        present_ids(m, ids.subrange(0, i + 1)) == if m.contains_key(ids[i]) {
            present_ids(m, ids.subrange(0, i)).push(ids[i])
        } else {
            present_ids(m, ids.subrange(0, i))
        },
{
    assert(ids.subrange(0, i + 1).drop_last() =~= ids.subrange(0, i));
}

proof fn lemma_present_ids_all<M>(m: Map<u32, M>, ids: Seq<u32>)
    requires
        forall|j: int| 0 <= j < ids.len() ==> m.contains_key(ids[j]),
    ensures
        present_ids(m, ids) == ids,
    decreases ids.len(),
{
    if ids.len() > 0 {
        lemma_present_ids_all(m, ids.drop_last());
        assert(ids.drop_last().push(ids.last()) =~= ids);
    }
}

/// A message that was stored comes back as it was stored: the fields of the
/// message handed in, under the identifier that the store returned.
pub proof fn lemma_add_then_get<M: ChatMessage>(
    before: Map<u32, M>,
    after: Map<u32, M>,
    message: M,
    id: u32,
    stored: M,
)
    requires
        after == before.insert(id, stored),
        is_stored_copy(stored, message, id),
    ensures
        after.contains_key(id),
        is_stored_copy(after[id], message, id),
{
}

/// What a clear leaves: no message, every subscription. Clearing an empty
/// store changes nothing, and the identifiers listed after a clear are none.
pub proof fn lemma_clear_idempotent<M: ChatMessage, O: MessageObserver<M>>(
    before: ChatState<M, O>,
    after: ChatState<M, O>,
    listed: Seq<u32>,
)
    requires
        after.messages() == Map::<u32, M>::empty(),
        after.observers() == before.observers(),
        listed.to_set() == after.messages().dom(),
    ensures
        before.messages() == Map::<u32, M>::empty() ==> after.messages() == before.messages(),
        listed.len() == 0,
        after.observers() == before.observers(),
{
    if listed.len() > 0 {
        assert(listed.to_set().contains(listed[0]));
    }
}

/// A key that `m` does not hold and that is not zero: `drawn` where it is
/// such a key, else the smallest one. Where no such key exists, `drawn`.
fn fresh_key<V>(m: &HashMap<u32, V>, drawn: u32) -> (r: u32)
    ensures
        m@.len() < u32::MAX ==> !m@.contains_key(r) && r != 0,
        (drawn != 0 && !m@.contains_key(drawn)) ==> r == drawn,
{
    if drawn != 0 && !m.contains_key(&drawn) {
        return drawn;
    }
    if m.len() as u64 >= 0xFFFF_FFFFu64 {
        return drawn;
    }
    let mut c: u32 = 1;
    let ghost mut tried: Set<u32> = Set::empty();
    while m.contains_key(&c)
        invariant
            1 <= c,
            tried.finite(),
            tried.len() == c - 1,
            tried.subset_of(m@.dom()),
            forall|x: u32| tried.contains(x) ==> x < c,
            m@.len() < u32::MAX,
        decreases u32::MAX - c,
    {
        proof {
            assert(!tried.contains(c));
            tried = tried.insert(c);
            vstd::set_lib::lemma_len_subset(tried, m@.dom());
        }
        c = c + 1;
    }
    c
}

/// The messages of a conversation, each under an identifier that the store
/// assigned, and the observers told of each new one.
pub struct ChatState<M, O> {
    auto_scroll: bool,
    messages: HashMap<u32, M>,
    on_message_actions: HashMap<u32, O>,
    rng: ThreadRng,
}

impl<M: ChatMessage, O: MessageObserver<M>> ChatState<M, O> {
    /// The stored messages by identifier.
    pub closed spec fn messages(&self) -> Map<u32, M> {
        self.messages@
    }

    /// The subscriptions by identifier.
    pub closed spec fn observers(&self) -> Map<u32, O> {
        self.on_message_actions@
    }

    pub closed spec fn spec_auto_scroll(&self) -> bool {
        self.auto_scroll
    }

    pub fn new() -> (r: Self)
        ensures
            r.messages() == Map::<u32, M>::empty(),
            r.observers() == Map::<u32, O>::empty(),
            r.spec_auto_scroll(),
    {
        ChatState {
            auto_scroll: true,
            messages: HashMap::new(),
            on_message_actions: HashMap::new(),
            rng: thread_rng(),
        }
    }

    pub fn automatic_scroll(&self) -> (r: bool)
        ensures
            r == self.spec_auto_scroll(),
    {
        self.auto_scroll
    }

    pub fn set_automatic_scroll(&mut self, value: bool)
        ensures
            final(self).spec_auto_scroll() == value,
            final(self).messages() == old(self).messages(),
            final(self).observers() == old(self).observers(),
    {
        self.auto_scroll = value;
    }

    /// Registers an observer under a fresh subscription identifier.
    pub fn subscribe_on_message_action(&mut self, callback: O) -> (r: u32)
        ensures
            final(self).observers() == old(self).observers().insert(r, callback),
            old(self).observers().len() < u32::MAX ==> !old(self).observers().contains_key(r)
                && r != 0,
            final(self).messages() == old(self).messages(),
            final(self).spec_auto_scroll() == old(self).spec_auto_scroll(),
    {
        let drawn = random_u32(&mut self.rng);
        let id = fresh_key(&self.on_message_actions, drawn);
        self.on_message_actions.insert(id, callback);
        id
    }

    /// Drops a subscription; an unknown identifier changes nothing.
    pub fn unsubscribe_on_message_action(&mut self, callback_id: &u32)
        ensures
            final(self).observers() == old(self).observers().remove(*callback_id),
            final(self).messages() == old(self).messages(),
            final(self).spec_auto_scroll() == old(self).spec_auto_scroll(),
    {
        self.on_message_actions.remove(callback_id);
    }

    /// Removes every message; subscriptions stay.
    pub fn clear_messages(&mut self)
        ensures
            final(self).messages() == Map::<u32, M>::empty(),
            final(self).observers() == old(self).observers(),
            final(self).spec_auto_scroll() == old(self).spec_auto_scroll(),
    {
        self.messages.clear();
    }

    pub fn get_message(&self, message_id: &u32) -> (r: Option<&M>)
        ensures
            match r {
                Some(m) => self.messages().contains_key(*message_id) && *m
                    == self.messages()[*message_id],
                None => !self.messages().contains_key(*message_id),
            },
    {
        self.messages.get(message_id)
    }

    /// Every stored identifier, each once, in no particular order.
    pub fn get_messages_ids(&self) -> (r: Vec<u32>)
        ensures
            r@.to_set() == self.messages().dom(),
            r@.no_duplicates(),
            r@.len() == self.messages().len(),
    {
        let ghost keys: Seq<u32> = self.messages.keys().remaining().unref();
        let mut r: Vec<u32> = Vec::new();
        for k in it: self.messages.keys()
            invariant
                it.seq().unref() == keys,
                r@ == keys.subrange(0, it.index() as int),
        {
            r.push(*k);
        }
        assert(r@ =~= keys);
        r
    }

    /// Tells every observer of `message`; returns the subscriptions told,
    /// each once.
    fn notify_observers(&self, message: &M) -> (told: Vec<u32>)
        ensures
            told@.to_set() == self.observers().dom(),
            told@.no_duplicates(),
    {
        let ghost keys: Seq<u32> = self.on_message_actions.keys().remaining().unref();
        let mut told: Vec<u32> = Vec::new();
        for k in it: self.on_message_actions.keys()
            invariant
                it.seq().unref() == keys,
                keys.to_set() == self.observers().dom(),
                told@ == keys.subrange(0, it.index() as int),
        {
            let id = *k;
            assert(self.observers().contains_key(id)) by {
                assert(keys[it.index() as int] == id);
            }
            match self.on_message_actions.get(&id) {
                Some(observer) => observer.on_message(message),
                None => {},
            }
            told.push(id);
        }
        assert(told@ =~= keys);
        told
    }

    /// Stores `message` under a fresh identifier, then tells every observer.
    fn insert_message(&mut self, message: M) -> (r: (u32, &M))
        ensures
            final(self).messages() == old(self).messages().insert(r.0, *r.1),
            is_stored_copy(*r.1, message, r.0),
            old(self).messages().len() < u32::MAX ==> !old(self).messages().contains_key(r.0)
                && r.0 != 0,
            final(self).observers() == old(self).observers(),
            final(self).spec_auto_scroll() == old(self).spec_auto_scroll(),
    {
        let mut message = message;
        let drawn = random_u32(&mut self.rng);
        let id = fresh_key(&self.messages, drawn);
        message.set_id(id);
        self.messages.insert(id, message);
        let stored: &M = self.messages.get(&id).unwrap();
        self.notify_observers(stored);
        (id, stored)
    }

    /// Stores `message` under a fresh identifier and tells every observer of
    /// it before returning.
    pub fn add_message(&mut self, message: M) -> (r: (u32, &M))
        ensures
            final(self).messages() == old(self).messages().insert(r.0, *r.1),
            is_stored_copy(*r.1, message, r.0),
            old(self).messages().len() < u32::MAX ==> !old(self).messages().contains_key(r.0)
                && r.0 != 0,
            final(self).observers() == old(self).observers(),
            final(self).spec_auto_scroll() == old(self).spec_auto_scroll(),
    {
        self.insert_message(message)
    }

    /// The stored messages among `message_ids`, in their order there.
    pub fn get_messages(&self, message_ids: Vec<&u32>) -> (r: Vec<&M>)
        ensures
            ({
                let present = present_ids(self.messages(), message_ids@.unref());
                &&& r@.len() == present.len()
                &&& forall|i: int| 0 <= i < r@.len() ==> *r@[i] == self.messages()[present[i]]
            }),
    {
        let ghost ids = message_ids@.unref();
        let mut r: Vec<&M> = Vec::new();
        let mut i: usize = 0;
        while i < message_ids.len()
            invariant
                i <= message_ids@.len(),
                ids == message_ids@.unref(),
                r@.len() == present_ids(self.messages(), ids.subrange(0, i as int)).len(),
                forall|j: int|
                    0 <= j < r@.len() ==> *r@[j] == self.messages()[present_ids(
                        self.messages(),
                        ids.subrange(0, i as int),
                    )[j]],
            decreases message_ids@.len() - i,
        {
            proof {
                lemma_present_ids_step(self.messages(), ids, i as int);
            }
            let id: &u32 = message_ids[i];
            match self.messages.get(id) {
                Some(m) => r.push(m),
                None => {},
            }
            i = i + 1;
        }
        assert(ids.subrange(0, i as int) =~= ids);
        r
    }

    /// The stored messages among `message_ids` with their identifiers, in
    /// their order there.
    pub fn get_message_pairs(&self, message_ids: &Vec<u32>) -> (r: Vec<(u32, &M)>)
        ensures
            ({
                let present = present_ids(self.messages(), message_ids@);
                &&& r@.len() == present.len()
                &&& forall|i: int|
                    0 <= i < r@.len() ==> r@[i].0 == present[i] && *r@[i].1
                        == self.messages()[present[i]]
            }),
    {
        let ghost ids = message_ids@;
        let mut r: Vec<(u32, &M)> = Vec::new();
        let mut i: usize = 0;
        while i < message_ids.len()
            invariant
                i <= ids.len(),
                ids == message_ids@,
                r@.len() == present_ids(self.messages(), ids.subrange(0, i as int)).len(),
                forall|j: int|
                    #![trigger r@[j]]
                    0 <= j < r@.len() ==> {
                        let p = present_ids(self.messages(), ids.subrange(0, i as int));
                        r@[j].0 == p[j] && *r@[j].1 == self.messages()[p[j]]
                    },
            decreases ids.len() - i,
        {
            proof {
                lemma_present_ids_step(self.messages(), ids, i as int);
            }
            let id: u32 = message_ids[i];
            match self.messages.get(&id) {
                Some(m) => r.push((id, m)),
                None => {},
            }
            i = i + 1;
        }
        assert(ids.subrange(0, i as int) =~= ids);
        r
    }

    /// Every stored message with its identifier, each once, in no
    /// particular order.
    pub fn get_all_message_pairs(&self) -> (r: Vec<(u32, &M)>)
        ensures
            r@.len() == self.messages().len(),
            r@.map_values(|p: (u32, &M)| p.0).to_set() == self.messages().dom(),
            r@.map_values(|p: (u32, &M)| p.0).no_duplicates(),
            forall|i: int| 0 <= i < r@.len() ==> *r@[i].1 == self.messages()[r@[i].0],
    {
        let ids = self.get_messages_ids();
        proof {
            assert forall|j: int| 0 <= j < ids@.len() implies self.messages().contains_key(
                ids@[j],
            ) by {
                assert(ids@.to_set().contains(ids@[j]));
            }
            lemma_present_ids_all(self.messages(), ids@);
        }
        let r = self.get_message_pairs(&ids);
        assert(r@.map_values(|p: (u32, &M)| p.0) =~= ids@);
        assert forall|i: int| 0 <= i < r@.len() implies *r@[i].1 == self.messages()[r@[i].0] by {
            assert(r@[i].0 == ids@[i]);
        }
        r
    }

    /// Stores each of `messages` in turn, as `add_message` does, and returns
    /// them with their identifiers in the order given. While the store has
    /// room, every identifier is new, not zero, and unlike the others.
    pub fn add_messages(&mut self, messages: Vec<M>) -> (r: Vec<(u32, &M)>)
        ensures
            r@.len() == messages@.len(),
            final(self).messages().dom() == old(self).messages().dom().union(
                r@.map_values(|p: (u32, &M)| p.0).to_set(),
            ),
            forall|i: int|
                #![trigger r@[i]]
                0 <= i < r@.len() ==> *r@[i].1 == final(self).messages()[r@[i].0],
            old(self).messages().len() + messages@.len() < u32::MAX ==> {
                &&& r@.map_values(|p: (u32, &M)| p.0).no_duplicates()
                &&& forall|i: int|
                    #![trigger r@[i]]
                    0 <= i < r@.len() ==> {
                        &&& !old(self).messages().contains_key(r@[i].0)
                        &&& r@[i].0 != 0
                        &&& is_stored_copy(*r@[i].1, messages@[i], r@[i].0)
                    }
                &&& forall|k: u32|
                    old(self).messages().contains_key(k) ==> final(self).messages()[k] == old(
                        self,
                    ).messages()[k]
            },
            final(self).observers() == old(self).observers(),
            final(self).spec_auto_scroll() == old(self).spec_auto_scroll(),
    {
        let ghost msgs = messages@;
        let ghost before = self.messages();
        let ghost room = before.len() + msgs.len() < u32::MAX;
        let mut ids: Vec<u32> = Vec::new();
        for message in it: messages.into_iter()
            invariant
                it.seq() == msgs,
                ids@.len() == it.index(),
                self.messages().dom() == before.dom().union(ids@.to_set()),
                forall|j: int| 0 <= j < ids@.len() ==> self.messages().contains_key(ids@[j]),
                self.observers() == old(self).observers(),
                self.spec_auto_scroll() == old(self).spec_auto_scroll(),
                before == old(self).messages(),
                room == (before.len() + msgs.len() < u32::MAX),
                room ==> {
                    &&& self.messages().len() == before.len() + ids@.len()
                    &&& ids@.no_duplicates()
                    &&& forall|j: int|
                        #![trigger ids@[j]]
                        0 <= j < ids@.len() ==> {
                            &&& !before.contains_key(ids@[j])
                            &&& ids@[j] != 0
                            &&& is_stored_copy(self.messages()[ids@[j]], msgs[j], ids@[j])
                        }
                    &&& forall|k: u32| before.contains_key(k) ==> self.messages()[k] == before[k]
                },
        {
            let ghost prev = self.messages();
            let ghost prev_ids = ids@;
            let (id, _) = self.insert_message(message);
            ids.push(id);
            proof {
                assert(ids@.to_set() =~= prev_ids.to_set().insert(id)) by {
                    assert forall|x: u32| ids@.to_set().contains(x) implies prev_ids.to_set().insert(
                        x,
                    ).contains(x) by {
                        let j = choose|j: int| 0 <= j < ids@.len() && ids@[j] == x;
                        if j < prev_ids.len() {
                            assert(prev_ids[j] == x);
                        }
                    }
                    assert forall|x: u32| prev_ids.to_set().insert(id).contains(x) implies ids@.to_set().contains(x) by {
                        if x != id {
                            let j = choose|j: int| 0 <= j < prev_ids.len() && prev_ids[j] == x;
                            assert(ids@[j] == x);
                        } else {
                            assert(ids@[prev_ids.len() as int] == x);
                        }
                    }
                }
                assert(self.messages().dom() =~= before.dom().union(ids@.to_set()));
                if room {
                    assert(prev.len() < u32::MAX);
                    assert(!prev.contains_key(id));
                    assert forall|j: int| 0 <= j < prev_ids.len() implies ids@[j] != id by {
                        assert(prev.contains_key(prev_ids[j]));
                    }
                }
            }
        }
        let r = self.get_message_pairs(&ids);
        proof {
            lemma_present_ids_all(self.messages(), ids@);
            assert(r@.map_values(|p: (u32, &M)| p.0) =~= ids@);
            assert forall|i: int| #![trigger r@[i]] 0 <= i < r@.len() implies *r@[i].1
                == self.messages()[r@[i].0] by {
                assert(r@[i].0 == ids@[i]);
            }
            if room {
                assert forall|i: int| #![trigger r@[i]] 0 <= i < r@.len() implies {
                    &&& !before.contains_key(r@[i].0)
                    &&& r@[i].0 != 0
                    &&& is_stored_copy(*r@[i].1, msgs[i], r@[i].0)
                } by {
                    assert(r@[i].0 == ids@[i]);
                }
                assert(r@.map_values(|p: (u32, &M)| p.0).no_duplicates());
                assert(forall|k: u32|
                    old(self).messages().contains_key(k) ==> self.messages()[k] == old(
                        self,
                    ).messages()[k]);
            }
        }
        r
    }

    /// The stored message under `message_id`, to change in place.
    ///
    /// Relies on `HashMap::get_mut`: a message comes back exactly where the
    /// identifier is stored.
    #[verifier::external_body]
    pub fn get_message_mut(&mut self, message_id: &u32) -> (r: Option<&mut M>)
        ensures
            r is Some <==> old(self).messages().contains_key(*message_id),
    {
        self.messages.get_mut(message_id)
    }
}

} // verus!
