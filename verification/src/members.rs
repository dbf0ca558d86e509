//! The membership table of a room: who is in it, and what the room keeps about each of them.

use vstd::prelude::*;
use ws::Sender;
use crate::link::Key;
use crate::link::key_of;
use crate::link::same_connection;
use crate::link::Delivery;
use crate::link::Journal;
use crate::link::HotelError;
use crate::frame::Message;
use crate::frame::MessageView;

verus! {

/// The keys of the given entries, in the same order.
pub open spec fn keys_of<G>(entries: Seq<(G, Sender)>) -> Seq<Key> {
    Seq::new(entries.len(), |i: int| key_of(entries[i].1))
}

/// The keys of the given senders, in the same order.
pub open spec fn keys_of_senders(senders: Seq<Sender>) -> Seq<Key> {
    Seq::new(senders.len(), |i: int| key_of(senders[i]))
}

/// One accepted delivery of `frame` to each of `keys`, in order.
pub open spec fn accepted_by(keys: Seq<Key>, frame: MessageView) -> Seq<Delivery> {
    Seq::new(keys.len(), |i: int| Delivery { to: keys[i], frame: frame, accepted: true })
}

/// What a broadcast of `frame` to `keys` adds to the record when it ends with
/// the answer `ok`: on success every key was served once, in order; on
/// failure, for some key, the keys before it were served, the frame was
/// refused for that key and no later key was tried.
pub open spec fn broadcast_adds(
    keys: Seq<Key>,
    frame: MessageView,
    ok: bool,
    added: Seq<Delivery>,
) -> bool {
    if ok {
        added == accepted_by(keys, frame)
    } else {
        exists|k: int|
            0 <= k < keys.len() && added == #[trigger] accepted_by(keys.take(k), frame).push(
                Delivery { to: keys[k], frame: frame, accepted: false },
            )
    }
}

/// The record went from `before` to `after` by one broadcast of `frame` to
/// `keys` that ended with the answer `ok`, and by nothing else.
pub open spec fn broadcast_grows(
    before: Seq<Delivery>,
    after: Seq<Delivery>,
    keys: Seq<Key>,
    frame: MessageView,
    ok: bool,
) -> bool {
    exists|added: Seq<Delivery>|
        after == before + added && #[trigger] broadcast_adds(keys, frame, ok, added)
}

/// Hands `msg` to each of `peers` in order and stops at the first refusal,
/// which it returns. Every attempt is recorded in `journal`.
pub fn broadcast_to(peers: &Vec<Sender>, msg: &Message, journal: &mut Journal) -> (r: Result<
    (),
    HotelError,
>)
    ensures
        broadcast_grows(old(journal)@, final(journal)@, keys_of_senders(peers@), msg@, r is Ok),
        r is Err ==> r->Err_0 is Transport,
{
    let ghost keys = keys_of_senders(peers@);
    let mut i: usize = 0;
    while i < peers.len()
        invariant
            i <= peers@.len(),
            keys == keys_of_senders(peers@),
            journal@ == old(journal)@ + accepted_by(keys.take(i as int), msg@),
        decreases peers@.len() - i,
    {
        let answer = journal.deliver(&peers[i], msg);
        match answer {
            Ok(()) => {
                proof {
                    assert(accepted_by(keys.take(i as int + 1), msg@) =~= accepted_by(
                        keys.take(i as int),
                        msg@,
                    ).push(Delivery { to: keys[i as int], frame: msg@, accepted: true }));
                    assert(journal@ =~= old(journal)@ + accepted_by(
                        keys.take(i as int + 1),
                        msg@,
                    ));
                }
            },
            Err(e) => {
                proof {
                    let added = accepted_by(keys.take(i as int), msg@).push(
                        Delivery { to: keys[i as int], frame: msg@, accepted: false },
                    );
                    assert(journal@ =~= old(journal)@ + added);
                    assert(broadcast_adds(keys, msg@, false, added));
                }
                return Err(e);
            },
        }
        i += 1;
    }
    proof {
        assert(keys.take(i as int) =~= keys);
        assert(broadcast_adds(keys, msg@, true, accepted_by(keys, msg@)));
    }
    Ok(())
}

/// A place at which `key` stands in `keys`.
pub open spec fn place_of(keys: Seq<Key>, key: Key) -> int {
    choose|i: int| 0 <= i < keys.len() && keys[i] == key
}

/// No key occurs twice.
pub open spec fn distinct(keys: Seq<Key>) -> bool {
    forall|i: int, j: int| 0 <= i < j < keys.len() ==> keys[i] != keys[j]
}

/// The members of one room, in the order in which broadcasts reach them.
/// Each entry pairs the identity that the room keeps for a member with the
/// sender that leads to it. No two entries lead to the same connection.
pub struct Members<G> {
    guests: Vec<G>,
    senders: Vec<Sender>,
}

impl<G> View for Members<G> {
    type V = Seq<(G, Sender)>;

    closed spec fn view(&self) -> Seq<(G, Sender)> {
        Seq::new(self.senders@.len(), |i: int| (self.guests@[i], self.senders@[i]))
    }
}

impl<G> Members<G> {
    #[verifier::type_invariant]
    closed spec fn unique(&self) -> bool {
        &&& self.guests@.len() == self.senders@.len()
        &&& forall|i: int, j: int|
            0 <= i < j < self.senders@.len() ==> key_of(#[trigger] self.senders@[i]) != key_of(
                #[trigger] self.senders@[j],
            )
    }

    /// The keys of the members, in table order.
    pub open spec fn keys(&self) -> Seq<Key> {
        keys_of(self@)
    }

    /// The place of the member with this key.
    pub open spec fn place(&self, key: Key) -> int {
        place_of(self.keys(), key)
    }

    /// No two entries of a table lead to the same connection, whatever was
    /// done to the table before.
    pub fn integrity(&self)
        ensures
            distinct(self.keys()),
    {
        proof {
            use_type_invariant(self);
        }
    }

    /// Whether the connection with this key is a member.
    pub open spec fn has(&self, key: Key) -> bool {
        self.keys().contains(key)
    }

    /// An empty table.
    pub fn new() -> (m: Self)
        ensures
            m@ == Seq::<(G, Sender)>::empty(),
    {
        Members { guests: Vec::new(), senders: Vec::new() }
    }

    /// The number of members.
    pub fn len(&self) -> (n: usize)
        ensures
            n == self@.len(),
    {
        self.senders.len()
    }

    /// The identity that the room keeps for the member at place `at`.
    pub fn guest(&self, at: usize) -> (guest: &G)
        requires
            at < self@.len(),
        ensures
            *guest == self@[at as int].0,
    {
        proof {
            use_type_invariant(self);
        }
        &self.guests[at]
    }

    /// The sender that leads to the member at place `at`.
    pub fn sender(&self, at: usize) -> (sender: &Sender)
        requires
            at < self@.len(),
        ensures
            *sender == self@[at as int].1,
    {
        &self.senders[at]
    }

    /// The place of the member that `sender` leads to, if it is one.
    pub fn position(&self, sender: &Sender) -> (at: Option<usize>)
        ensures
            match at {
                Some(i) => i < self@.len() && self.keys()[i as int] == key_of(*sender) && i
                    == self.place(key_of(*sender)),
                None => !self.has(key_of(*sender)),
            },
    {
        self.integrity();
        let mut i: usize = 0;
        while i < self.senders.len()
            invariant
                i <= self.senders@.len(),
                distinct(self.keys()),
                forall|j: int| 0 <= j < i ==> key_of(self.senders@[j]) != key_of(*sender),
            decreases self.senders@.len() - i,
        {
            if same_connection(&self.senders[i], sender) {
                proof {
                    let keys = self.keys();
                    let at = self.place(key_of(*sender));
                    assert(keys[i as int] == key_of(*sender));
                    assert(keys[at] == key_of(*sender));
                    if at < i {
                        assert(keys[at] != keys[i as int]);
                    }
                    if i < at {
                        assert(keys[i as int] != keys[at]);
                    }
                }
                return Some(i);
            }
            i += 1;
        }
        None
    }

    /// Appends a member: `sender` leads to it, `identity` is what the room
    /// keeps about it. The connection must not be a member yet.
    pub fn add(&mut self, sender: Sender, identity: G)
        requires
            !old(self).has(key_of(sender)),
        ensures
            final(self)@ == old(self)@.push((identity, sender)),
    {
        proof {
            use_type_invariant(&*self);
        }
        let ghost before = self@;
        assert forall|i: int| 0 <= i < self.senders@.len() implies key_of(
            #[trigger] self.senders@[i],
        ) != key_of(sender) by {
            assert(self.keys()[i] == key_of(self.senders@[i]));
        }
        let mut taken = Members::new();
        std::mem::swap(self, &mut taken);
        let Members { mut guests, mut senders } = taken;
        guests.push(identity);
        senders.push(sender);
        *self = Members { guests, senders };
        assert(self@ =~= before.push((identity, sender)));
    }

    /// Removes the member that `sender` leads to, which must be one. Those
    /// who stay keep their order.
    pub fn remove(&mut self, sender: &Sender)
        requires
            old(self).has(key_of(*sender)),
        ensures
            final(self)@ == old(self)@.remove(old(self).place(key_of(*sender))),
            !final(self).has(key_of(*sender)),
    {
        proof {
            use_type_invariant(&*self);
        }
        let ghost before = self@;
        let ghost key = key_of(*sender);
        let at = self.position(sender).unwrap();
        let mut taken = Members::new();
        std::mem::swap(self, &mut taken);
        let Members { mut guests, mut senders } = taken;
        guests.remove(at);
        senders.remove(at);
        *self = Members { guests, senders };
        assert(self@ =~= before.remove(at as int));
        assert(!self.has(key)) by {
            if self.has(key) {
                let j = choose|j: int| 0 <= j < self.keys().len() && self.keys()[j] == key;
                if j < at as int {
                    assert(self.keys()[j] == keys_of(before)[j]);
                } else {
                    assert(self.keys()[j] == keys_of(before)[j + 1]);
                }
            }
        }
    }

    /// The identity slot of the member at place `at`, for writing, together
    /// with the senders of all members, for reading.
    pub fn split(&mut self, at: usize) -> (parts: (&mut G, &Vec<Sender>))
        requires
            at < old(self)@.len(),
        ensures
            *parts.0 == old(self)@[at as int].0,
            keys_of_senders(parts.1@) == old(self).keys(),
            final(self)@ == old(self)@.update(
                at as int,
                (*final(parts.0), old(self)@[at as int].1),
            ),
    {
        proof {
            use_type_invariant(&*self);
        }
        assert(keys_of_senders(self.senders@) =~= self.keys());
        (&mut self.guests[at], &self.senders)
    }

    /// Hands `msg` to every member, in table order, and stops at the first
    /// refusal, which it returns. Every attempt is recorded in `journal`.
    pub fn broadcast(&self, msg: &Message, journal: &mut Journal) -> (r: Result<(), HotelError>)
        ensures
            broadcast_grows(old(journal)@, final(journal)@, self.keys(), msg@, r is Ok),
            r is Err ==> r->Err_0 is Transport,
    {
        assert(keys_of_senders(self.senders@) =~= self.keys());
        broadcast_to(&self.senders, msg, journal)
    }
}

} // verus!
