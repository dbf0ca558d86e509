//! What a handler is given while it serves one member of a room.

use vstd::prelude::*;
use ws::Sender;
use crate::frame::Message;
use crate::link::Delivery;
use crate::link::HotelError;
use crate::link::Journal;
use crate::link::Key;
use crate::link::key_of;
use crate::members::broadcast_grows;
use crate::members::broadcast_to;
use crate::members::keys_of_senders;

verus! {

/// The view that a handler has of its room during one callback: the member
/// that the callback is about (the caller), the identity that the room keeps
/// for it, and the other members as destinations of frames.
///
/// The two mutable parts are borrowed from the room: what the identity slot
/// and the record hold when the callback ends is what the room holds after it.
pub struct Context<'a, G> {
    /// The sender that leads to the caller.
    pub sender: &'a Sender,
    /// The slot of the table that holds the identity of the caller.
    pub identity: &'a mut G,
    /// The senders of all members, the caller among them, in table order.
    pub peers: &'a Vec<Sender>,
    /// The record of the frames handed out on behalf of the room.
    pub journal: &'a mut Journal,
}

impl<'a, G> Context<'a, G> {
    /// The key of the caller.
    pub open spec fn me(&self) -> Key {
        key_of(*self.sender)
    }

    /// The identity that the room keeps for the caller.
    pub open spec fn guest(&self) -> G {
        *self.identity
    }

    /// The keys of the members of the room, the caller among them, in table order.
    pub open spec fn keys(&self) -> Seq<Key> {
        keys_of_senders(self.peers@)
    }

    /// The frames handed out on behalf of the room so far.
    pub open spec fn sent(&self) -> Seq<Delivery> {
        self.journal@
    }

    /// The identity of the caller, for reading and writing. What is written
    /// is what the next callback for this member finds. The context stays
    /// bound to the same slot and to the same record.
    pub fn identity(&mut self) -> (slot: &mut G)
        ensures
            *slot == old(self).guest(),
            final(self).guest() == *final(slot),
            final(self).me() == old(self).me(),
            final(self).keys() == old(self).keys(),
            final(self).sent() == old(self).sent(),
            *final(final(self).identity) == *final(old(self).identity),
            *final(final(self).journal) == *final(old(self).journal),
    {
        &mut *self.identity
    }

    /// Sends `msg` to the caller and to nobody else. The context stays bound
    /// to the same slot and to the same record.
    pub fn send(&mut self, msg: Message) -> (r: Result<(), HotelError>)
        ensures
            final(self).sent() == old(self).sent().push(
                Delivery { to: old(self).me(), frame: msg@, accepted: r is Ok },
            ),
            r is Err ==> r->Err_0 is Transport,
            final(self).guest() == old(self).guest(),
            final(self).me() == old(self).me(),
            final(self).keys() == old(self).keys(),
            *final(final(self).identity) == *final(old(self).identity),
            *final(final(self).journal) == *final(old(self).journal),
    {
        self.journal.deliver(self.sender, &msg)
    }

    /// Sends `msg` to every member of the room, the caller included, in table
    /// order. The first refusal ends the round and is returned. The context
    /// stays bound to the same slot and to the same record.
    pub fn broadcast(&mut self, msg: Message) -> (r: Result<(), HotelError>)
        ensures
            broadcast_grows(old(self).sent(), final(self).sent(), old(self).keys(), msg@, r is Ok),
            r is Err ==> r->Err_0 is Transport,
            final(self).guest() == old(self).guest(),
            final(self).me() == old(self).me(),
            final(self).keys() == old(self).keys(),
            *final(final(self).identity) == *final(old(self).identity),
            *final(final(self).journal) == *final(old(self).journal),
    {
        broadcast_to(self.peers, &msg, self.journal)
    }
}

} // verus!
