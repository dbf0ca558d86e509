//! A room: one handler and the members it serves.

use vstd::prelude::*;
use ws::Sender;
use crate::context::Context;
use crate::frame::Message;
use crate::link::Delivery;
use crate::link::HotelError;
use crate::link::Journal;
use crate::link::Key;
use crate::link::key_of;
use crate::members::Members;
use crate::members::broadcast_grows;

verus! {

/// What a callback returns: nothing to do, a request to move the caller
/// elsewhere, or the error that ends the service of the connection.
pub type ResultRelocation<T> = Result<Option<T>, HotelError>;

/// The behaviour of one kind of room.
pub trait RoomHandler: Sized {
    /// What a room of this kind keeps about each of its members. A member
    /// that is moved into the room brings the first value along; every
    /// callback that serves the member can read and change it.
    type Guest;

    /// What a callback hands back to ask that its caller be moved to another
    /// room: the destination together with the identity that the caller
    /// will have there.
    type Ticket;

    /// Called when a member has just been moved into the room. A handler
    /// that does not write its own does nothing here and asks for no move:
    /// it sends no frame and leaves the identity of the member as it is.
    fn on_join(&mut self, cx: Context<Self::Guest>) -> (r: ResultRelocation<Self::Ticket>)
        default_ensures
            r == ResultRelocation::<Self::Ticket>::Ok(None),
            *final(self) == *old(self),
            *final(cx.identity) == *old(cx.identity),
            final(cx.journal)@ == old(cx.journal)@,
    {
        Ok(None)
    }

    /// Called for each frame that a member sends.
    fn on_message(&mut self, cx: Context<Self::Guest>, msg: Message) -> (r: ResultRelocation<
        Self::Ticket,
    >);

    /// Called when a member is about to leave the room. `reason` holds the
    /// close code and the closing words of a connection that went away, and
    /// nothing for a member that is being moved to another room. A handler
    /// that does not write its own does nothing here.
    fn on_leave(&mut self, cx: Context<Self::Guest>, reason: Option<(u16, &str)>)
        default_ensures
            *final(self) == *old(self),
            *final(cx.identity) == *old(cx.identity),
            final(cx.journal)@ == old(cx.journal)@,
    {
    }
}

/// The state of a room: its handler, its members, and the record of the
/// frames handed out on its behalf.
pub struct RoomInner<R: RoomHandler> {
    pub handler: R,
    pub members: Members<R::Guest>,
    pub journal: Journal,
}

/// The entries `after` a callback that served the member at place `at` of
/// `before`: the same members in the same order, and no identity but that of
/// the member served may differ.
pub open spec fn served<G>(before: Seq<(G, Sender)>, after: Seq<(G, Sender)>, at: int) -> bool {
    &&& after.len() == before.len()
    &&& forall|i: int| 0 <= i < before.len() ==> (#[trigger] after[i]).1 == before[i].1
    &&& forall|i: int| 0 <= i < before.len() && i != at ==> #[trigger] after[i] == before[i]
}

impl<R: RoomHandler> RoomInner<R> {
    /// A room with the given handler and no member.
    pub fn new(handler: R) -> (room: Self)
        ensures
            room.handler == handler,
            room.members@ == Seq::<(R::Guest, Sender)>::empty(),
            room.journal@ == Seq::<Delivery>::empty(),
    {
        RoomInner { handler, members: Members::new(), journal: Journal::new() }
    }

    /// `handler` and `cx` are what the room hands to a callback that serves
    /// the member behind `sender`: its handler as it is, and a context whose
    /// caller is that member, with the identity that the table holds for it,
    /// the keys of the table and the record of the room.
    pub open spec fn hands(&self, sender: Sender, handler: R, cx: Context<R::Guest>) -> bool {
        &&& handler == self.handler
        &&& cx.me() == key_of(sender)
        &&& cx.guest() == self.members@[self.members.place(key_of(sender))].0
        &&& cx.keys() == self.members.keys()
        &&& cx.sent() == self.journal@
    }

    /// The room holds what a callback that served the member behind `sender`
    /// left behind: `handler`, `identity` in the place of that member, and
    /// `record`. `before` is the room before the callback.
    pub open spec fn keeps(
        &self,
        sender: Sender,
        before: Self,
        handler: R,
        identity: R::Guest,
        record: Seq<Delivery>,
    ) -> bool {
        &&& self.handler == handler
        &&& self.members@[before.members.place(key_of(sender))].0 == identity
        &&& self.journal@ == record
    }

    /// Runs `f` on the handler and on a context bound to the member behind
    /// `sender`, which must be a member, and returns what `f` returns. What
    /// `f` leaves in the handler, in the identity slot and in the record is
    /// what the room holds afterwards.
    pub fn with_context<O, F: FnOnce(&mut R, Context<R::Guest>) -> O>(
        &mut self,
        sender: &Sender,
        f: F,
    ) -> (out: O)
        requires
            old(self).members.has(key_of(*sender)),
            forall|h: &mut R, cx: Context<R::Guest>|
                old(self).hands(*sender, *h, cx) ==> #[trigger] call_requires(f, (h, cx)),
        ensures
            served(
                old(self).members@,
                final(self).members@,
                old(self).members.place(key_of(*sender)),
            ),
            exists|h: &mut R, cx: Context<R::Guest>|
                {
                    &&& old(self).hands(*sender, *h, cx)
                    &&& #[trigger] call_ensures(f, (h, cx), out)
                    &&& final(self).keeps(
                        *sender,
                        *old(self),
                        *final(h),
                        *final(cx.identity),
                        final(cx.journal)@,
                    )
                },
    {
        self.members.integrity();
        let at = self.members.position(sender).unwrap();
        let (identity, peers) = self.members.split(at);
        let cx = Context { sender, identity, peers, journal: &mut self.journal };
        f(&mut self.handler, cx)
    }

    /// Lets the handler react to the arrival of the member behind `sender`.
    pub fn on_join(&mut self, sender: &Sender) -> (r: ResultRelocation<R::Ticket>)
        ensures
            old(self).members.has(key_of(*sender)) ==> served(
                old(self).members@,
                final(self).members@,
                old(self).members.place(key_of(*sender)),
            ),
            !old(self).members.has(key_of(*sender)) ==> *final(self) == *old(self) && r
                == ResultRelocation::<R::Ticket>::Err(HotelError::NotMember),
            old(self).members.has(key_of(*sender)) ==> exists|g: &mut R, cx: Context<R::Guest>|
                {
                    &&& old(self).hands(*sender, *g, cx)
                    &&& #[trigger] call_ensures(R::on_join, (g, cx), r)
                    &&& final(self).keeps(
                        *sender,
                        *old(self),
                        *final(g),
                        *final(cx.identity),
                        final(cx.journal)@,
                    )
                },
    {
        if !self.contains(sender) {
            return Err(HotelError::NotMember);
        }
        let call = |h: &mut R, cx: Context<R::Guest>| -> (r: ResultRelocation<R::Ticket>)
            ensures
                exists|g: &mut R|
                    *g == *old(h) && *final(g) == *final(h) && #[trigger] call_ensures(
                        R::on_join,
                        (g, cx),
                        r,
                    ),
            {
                h.on_join(cx)
            };
        let r = self.with_context(sender, call);
        proof {
            let (h, cx) = choose|h: &mut R, cx: Context<R::Guest>|
                {
                    &&& old(self).hands(*sender, *h, cx)
                    &&& #[trigger] call_ensures(call, (h, cx), r)
                    &&& self.keeps(
                        *sender,
                        *old(self),
                        *final(h),
                        *final(cx.identity),
                        final(cx.journal)@,
                    )
                };
            let g = choose|g: &mut R|
                *g == *h && *final(g) == *final(h) && #[trigger] call_ensures(
                    R::on_join,
                    (g, cx),
                    r,
                );
            assert(old(self).hands(*sender, *g, cx));
        }
        r
    }

    /// Lets the handler react to a frame from the member behind `sender`.
    pub fn on_message(&mut self, sender: &Sender, msg: Message) -> (r: ResultRelocation<R::Ticket>)
        ensures
            old(self).members.has(key_of(*sender)) ==> served(
                old(self).members@,
                final(self).members@,
                old(self).members.place(key_of(*sender)),
            ),
            !old(self).members.has(key_of(*sender)) ==> *final(self) == *old(self) && r
                == ResultRelocation::<R::Ticket>::Err(HotelError::NotMember),
            old(self).members.has(key_of(*sender)) ==> exists|g: &mut R, cx: Context<R::Guest>|
                {
                    &&& old(self).hands(*sender, *g, cx)
                    &&& #[trigger] call_ensures(R::on_message, (g, cx, msg), r)
                    &&& final(self).keeps(
                        *sender,
                        *old(self),
                        *final(g),
                        *final(cx.identity),
                        final(cx.journal)@,
                    )
                },
    {
        if !self.contains(sender) {
            return Err(HotelError::NotMember);
        }
        let call = move |h: &mut R, cx: Context<R::Guest>| -> (r: ResultRelocation<R::Ticket>)
            ensures
                exists|g: &mut R|
                    *g == *old(h) && *final(g) == *final(h) && #[trigger] call_ensures(
                        R::on_message,
                        (g, cx, msg),
                        r,
                    ),
            {
                h.on_message(cx, msg)
            };
        let r = self.with_context(sender, call);
        proof {
            let (h, cx) = choose|h: &mut R, cx: Context<R::Guest>|
                {
                    &&& old(self).hands(*sender, *h, cx)
                    &&& #[trigger] call_ensures(call, (h, cx), r)
                    &&& self.keeps(
                        *sender,
                        *old(self),
                        *final(h),
                        *final(cx.identity),
                        final(cx.journal)@,
                    )
                };
            let g = choose|g: &mut R|
                *g == *h && *final(g) == *final(h) && #[trigger] call_ensures(
                    R::on_message,
                    (g, cx, msg),
                    r,
                );
            assert(old(self).hands(*sender, *g, cx));
        }
        r
    }

    /// Lets the handler react to the departure of the member behind `sender`,
    /// which is still a member during the call and after it.
    pub fn on_leave(&mut self, sender: &Sender, reason: Option<(u16, &str)>) -> (r: Result<
        (),
        HotelError,
    >)
        ensures
            old(self).members.has(key_of(*sender)) ==> r is Ok && served(
                old(self).members@,
                final(self).members@,
                old(self).members.place(key_of(*sender)),
            ),
            !old(self).members.has(key_of(*sender)) ==> *final(self) == *old(self) && r == Err::<
                (),
                HotelError,
            >(HotelError::NotMember),
            old(self).members.has(key_of(*sender)) ==> exists|g: &mut R, cx: Context<R::Guest>|
                {
                    &&& old(self).hands(*sender, *g, cx)
                    &&& #[trigger] call_ensures(R::on_leave, (g, cx, reason), ())
                    &&& final(self).keeps(
                        *sender,
                        *old(self),
                        *final(g),
                        *final(cx.identity),
                        final(cx.journal)@,
                    )
                },
    {
        if !self.contains(sender) {
            return Err(HotelError::NotMember);
        }
        let call = move |h: &mut R, cx: Context<R::Guest>| -> (u: ())
            ensures
                exists|g: &mut R|
                    *g == *old(h) && *final(g) == *final(h) && #[trigger] call_ensures(
                        R::on_leave,
                        (g, cx, reason),
                        (),
                    ),
            {
                h.on_leave(cx, reason)
            };
        let u = self.with_context(sender, call);
        proof {
            let (h, cx) = choose|h: &mut R, cx: Context<R::Guest>|
                {
                    &&& old(self).hands(*sender, *h, cx)
                    &&& #[trigger] call_ensures(call, (h, cx), u)
                    &&& self.keeps(
                        *sender,
                        *old(self),
                        *final(h),
                        *final(cx.identity),
                        final(cx.journal)@,
                    )
                };
            let g = choose|g: &mut R|
                *g == *h && *final(g) == *final(h) && #[trigger] call_ensures(
                    R::on_leave,
                    (g, cx, reason),
                    (),
                );
            assert(old(self).hands(*sender, *g, cx));
        }
        Ok(())
    }

    /// Sends `msg` to every member, in table order. The first refusal ends
    /// the round and is returned.
    pub fn broadcast(&mut self, msg: Message) -> (r: Result<(), HotelError>)
        ensures
            broadcast_grows(
                old(self).journal@,
                final(self).journal@,
                old(self).members.keys(),
                msg@,
                r is Ok,
            ),
            r is Err ==> r->Err_0 is Transport,
            final(self).members == old(self).members,
            final(self).handler == old(self).handler,
    {
        self.members.broadcast(&msg, &mut self.journal)
    }

    /// Makes the connection behind `sender` a member, with `identity` as what
    /// the room keeps about it. No callback is made.
    pub fn add(&mut self, sender: Sender, identity: R::Guest)
        requires
            !old(self).members.has(key_of(sender)),
        ensures
            final(self).members@ == old(self).members@.push((identity, sender)),
            final(self).handler == old(self).handler,
            final(self).journal == old(self).journal,
    {
        self.members.add(sender, identity);
    }

    /// Ends the membership of the connection behind `sender`. Those who stay
    /// keep their order. No callback is made.
    pub fn remove(&mut self, sender: &Sender)
        requires
            old(self).members.has(key_of(*sender)),
        ensures
            final(self).members@ == old(self).members@.remove(
                old(self).members.place(key_of(*sender)),
            ),
            !final(self).members.has(key_of(*sender)),
            final(self).handler == old(self).handler,
            final(self).journal == old(self).journal,
    {
        self.members.remove(sender);
    }

    /// Makes the connection behind `sender` a member unless it is one
    /// already, in which case nothing changes and the error says so.
    pub fn try_add(&mut self, sender: Sender, identity: R::Guest) -> (r: Result<(), HotelError>)
        ensures
            match r {
                Ok(()) => !old(self).members.has(key_of(sender)) && final(self).members@ == old(
                    self,
                ).members@.push((identity, sender)),
                Err(e) => e is AlreadyMember && old(self).members.has(key_of(sender))
                    && final(self).members == old(self).members,
            },
            final(self).handler == old(self).handler,
            final(self).journal == old(self).journal,
    {
        if self.contains(&sender) {
            return Err(HotelError::AlreadyMember);
        }
        self.add(sender, identity);
        Ok(())
    }

    /// Ends the membership of the connection behind `sender` if it is a
    /// member; if not, nothing changes and the error says so.
    pub fn try_remove(&mut self, sender: &Sender) -> (r: Result<(), HotelError>)
        ensures
            match r {
                Ok(()) => old(self).members.has(key_of(*sender)) && final(self).members@ == old(
                    self,
                ).members@.remove(old(self).members.place(key_of(*sender))),
                Err(e) => e is NotMember && !old(self).members.has(key_of(*sender))
                    && final(self).members == old(self).members,
            },
            !final(self).members.has(key_of(*sender)),
            final(self).handler == old(self).handler,
            final(self).journal == old(self).journal,
    {
        if !self.contains(sender) {
            return Err(HotelError::NotMember);
        }
        self.remove(sender);
        Ok(())
    }

    /// The number of members.
    pub fn len(&self) -> (n: usize)
        ensures
            n == self.members@.len(),
    {
        self.members.len()
    }

    /// Whether the connection behind `sender` is a member.
    pub fn contains(&self, sender: &Sender) -> (r: bool)
        ensures
            r == self.members.has(key_of(*sender)),
    {
        self.members.position(sender).is_some()
    }
}

} // verus!
