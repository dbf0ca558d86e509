//! The link between one connection and the room it is in.

use vstd::prelude::*;
use ws::Sender;
use crate::frame::Message;
use crate::link::HotelError;
use crate::link::duplicate;
use crate::link::key_of;
use crate::room::ResultRelocation;
use crate::room::RoomHandler;
use crate::shared::Room;

verus! {

/// A request to move a member into `room`, where it will have `identity`.
#[verifier::reject_recursive_types(R)]
pub struct Relocation<R: RoomHandler> {
    pub room: Room<R>,
    pub identity: R::Guest,
}

impl<R: RoomHandler> Relocation<R> {
    /// A request to move the caller into `room` with `identity`. The request
    /// holds the room: the room lives at least as long as the request.
    #[must_use]
    pub fn new(room: &Room<R>, identity: R::Guest) -> (r: Self)
        ensures
            r.room == *room,
            r.identity == identity,
    {
        Relocation { room: room.share(), identity }
    }
}

/// A room as a connection sees it, whatever the kind of its handler.
pub trait RoomAny: Sized {
    /// The identity that a member brings along, in the form in which this
    /// view takes it.
    type Erased;

    /// What the callbacks of the room hand back to ask for a move.
    type Ticket;

    /// Tells the room that the member behind `sender` has arrived.
    fn on_join(&self, sender: &Sender) -> (r: ResultRelocation<Self::Ticket>);

    /// Hands a frame from the member behind `sender` to the room.
    fn on_message(&self, sender: &Sender, msg: Message) -> (r: ResultRelocation<Self::Ticket>);

    /// Tells the room that the member behind `sender` is about to leave.
    fn on_leave(&self, sender: &Sender, reason: Option<(u16, &str)>) -> (r: Result<
        (),
        HotelError,
    >);

    /// Sends a frame to every member of the room.
    fn broadcast(&self, msg: Message) -> (r: Result<(), HotelError>);

    /// Makes the connection behind `sender` a member of the room.
    fn add(&self, sender: Sender, identity: Self::Erased) -> (r: Result<(), HotelError>);

    /// Ends the membership of the connection behind `sender`.
    fn remove(&self, sender: &Sender) -> (r: Result<(), HotelError>);
}

impl<R: RoomHandler> RoomAny for Room<R> {
    type Erased = R::Guest;

    type Ticket = R::Ticket;

    /// What [`Room::on_join`] answers.
    fn on_join(&self, sender: &Sender) -> (r: ResultRelocation<R::Ticket>)
        ensures
            call_ensures(Room::<R>::on_join, (self, sender), r),
    {
        Room::on_join(self, sender)
    }

    /// What [`Room::on_message`] answers.
    fn on_message(&self, sender: &Sender, msg: Message) -> (r: ResultRelocation<R::Ticket>)
        ensures
            call_ensures(Room::<R>::on_message, (self, sender, msg), r),
    {
        Room::on_message(self, sender, msg)
    }

    /// What [`Room::on_leave`] answers.
    fn on_leave(&self, sender: &Sender, reason: Option<(u16, &str)>) -> (r: Result<
        (),
        HotelError,
    >)
        ensures
            call_ensures(Room::<R>::on_leave, (self, sender, reason), r),
    {
        Room::on_leave(self, sender, reason)
    }

    /// What [`Room::broadcast`] answers.
    fn broadcast(&self, msg: Message) -> (r: Result<(), HotelError>)
        ensures
            call_ensures(Room::<R>::broadcast, (self, msg), r),
    {
        Room::broadcast(self, msg)
    }

    /// What [`Room::add`] answers.
    fn add(&self, sender: Sender, identity: R::Guest) -> (r: Result<(), HotelError>)
        ensures
            call_ensures(Room::<R>::add, (self, sender, identity), r),
    {
        Room::add(self, sender, identity)
    }

    /// What [`Room::remove`] answers.
    fn remove(&self, sender: &Sender) -> (r: Result<(), HotelError>)
        ensures
            call_ensures(Room::<R>::remove, (self, sender), r),
    {
        Room::remove(self, sender)
    }
}

/// One call that the link of a connection made on a room.
pub enum Step<V> {
    /// The room was asked to take the connection in.
    Add(V),
    /// The room was told that the connection has arrived.
    Join(V),
    /// The room was handed a frame from the connection.
    Message(V),
    /// The room was told that the connection is about to leave.
    Leave(V),
    /// The room was asked to drop the connection.
    Remove(V),
}

/// Where a connection stands after the calls that its link has made.
pub enum Phase<V> {
    /// In no room.
    Outside,
    /// Taken in by the room; no callback of the room has served it yet.
    Arrived(V),
    /// In the room, and served by at least one callback of the room.
    Settled(V),
    /// Still in the room, which was told that it leaves.
    Leaving(V),
    /// The calls came in an order that no run of a link produces.
    Astray,
}

/// Where a connection stands after one more call.
pub open spec fn phase_then<V>(phase: Phase<V>, step: Step<V>) -> Phase<V> {
    match (phase, step) {
        (Phase::Outside, Step::Add(r)) => Phase::Arrived(r),
        (Phase::Arrived(a), Step::Join(r)) => if a == r {
            Phase::Settled(r)
        } else {
            Phase::Astray
        },
        (Phase::Arrived(a), Step::Message(r)) => if a == r {
            Phase::Settled(r)
        } else {
            Phase::Astray
        },
        (Phase::Settled(a), Step::Message(r)) => if a == r {
            Phase::Settled(r)
        } else {
            Phase::Astray
        },
        (Phase::Arrived(a), Step::Leave(r)) => if a == r {
            Phase::Leaving(r)
        } else {
            Phase::Astray
        },
        (Phase::Settled(a), Step::Leave(r)) => if a == r {
            Phase::Leaving(r)
        } else {
            Phase::Astray
        },
        (Phase::Leaving(a), Step::Remove(r)) => if a == r {
            Phase::Outside
        } else {
            Phase::Astray
        },
        _ => Phase::Astray,
    }
}

/// Where a connection stands after the calls of `script`, oldest first.
pub open spec fn phase_after<V>(script: Seq<Step<V>>) -> Phase<V>
    decreases script.len(),
{
    if script.len() == 0 {
        Phase::Outside
    } else {
        phase_then(phase_after(script.drop_last()), script.last())
    }
}

/// The calls of `script` came in the order of the life of a member: taken
/// in, told of its arrival at most once and before any frame, handed its
/// frames, told that it leaves, dropped; then the same in the next room.
pub open spec fn orderly<V>(script: Seq<Step<V>>) -> bool {
    !(phase_after(script) is Astray)
}

/// The calls of one move from `current` to `target`, in the order in which
/// they are made.
pub open spec fn hop<V>(current: V, target: V) -> Seq<Step<V>> {
    seq![Step::Leave(current), Step::Remove(current), Step::Add(target), Step::Join(target)]
}

/// What one connection keeps: its sender, the room it is in, and the calls
/// that it has made on rooms so far.
pub struct Handler<V: RoomAny> {
    sender: Sender,
    room: V,
    script: Ghost<Seq<Step<V>>>,
}

impl<V: RoomAny> Handler<V> {
    /// The room that the connection is in.
    pub closed spec fn current(&self) -> V {
        self.room
    }

    /// The sender that leads to the connection.
    pub closed spec fn link(&self) -> Sender {
        self.sender
    }

    /// The calls made on rooms so far, oldest first.
    pub closed spec fn script(&self) -> Seq<Step<V>> {
        self.script@
    }

    /// The connection is in its current room, as far as the calls made so
    /// far tell.
    pub open spec fn healthy(&self) -> bool {
        phase_after(self.script()) == Phase::Arrived(self.current()) || phase_after(self.script())
            == Phase::Settled(self.current())
    }

    /// The room that the connection is in.
    pub fn room(&self) -> (room: &V)
        ensures
            *room == self.current(),
    {
        &self.room
    }

    /// The sender that leads to the connection.
    pub fn sender(&self) -> (sender: &Sender)
        ensures
            *sender == self.link(),
    {
        &self.sender
    }

    /// What `enter` returns when the lobby gave `answer` to the request to
    /// take the connection behind `sender` in: the link of that connection
    /// to the lobby, with that one call behind it, where the lobby took it;
    /// the error of the lobby where it did not.
    pub open spec fn entered(
        sender: Sender,
        lobby: V,
        answer: Result<(), HotelError>,
        r: Result<Self, HotelError>,
    ) -> bool {
        match answer {
            Ok(()) => {
                &&& r is Ok
                &&& r->Ok_0.current() == lobby
                &&& r->Ok_0.link() == sender
                &&& r->Ok_0.script() == seq![Step::Add(lobby)]
            },
            Err(e) => r == Result::<Self, HotelError>::Err(e),
        }
    }

    /// The first link of a new connection: asks `lobby` to take the
    /// connection behind `sender` in with `identity`, makes no callback, and
    /// returns the link. The lobby is asked once, with a copy of the sender;
    /// where it refuses the member, its error is returned and no link is made.
    pub fn enter(sender: Sender, lobby: V, identity: V::Erased) -> (r: Result<Self, HotelError>)
        ensures
            exists|copy: Sender, answer: Result<(), HotelError>|
                {
                    &&& key_of(copy) == key_of(sender)
                    &&& #[trigger] call_ensures(V::add, (&lobby, copy, identity), answer)
                    &&& Self::entered(sender, lobby, answer, r)
                },
            r is Ok ==> {
                &&& r->Ok_0.current() == lobby
                &&& r->Ok_0.link() == sender
                &&& r->Ok_0.script() == seq![Step::Add(lobby)]
                &&& r->Ok_0.healthy()
            },
    {
        match lobby.add(duplicate(&sender), identity) {
            Ok(()) => {
                let ghost script = seq![Step::Add(lobby)];
                proof {
                    assert(script.drop_last() =~= Seq::<Step<V>>::empty());
                    reveal_with_fuel(phase_after, 2);
                }
                Ok(Handler { sender, room: lobby, script: Ghost(script) })
            },
            Err(e) => Err(e),
        }
    }

    /// What the second half of a move makes of the answers of the target:
    /// the target is asked once to take the connection in, with a copy of
    /// the sender and with `identity`. Where it refuses, its error is the
    /// result, after three calls. Where it agrees, it is told of the arrival
    /// with the sender, and what it answers to that is the result, after four.
    pub open spec fn lands(
        link: Sender,
        target: V,
        identity: V::Erased,
        made: int,
        next: ResultRelocation<V::Ticket>,
    ) -> bool {
        exists|copy: Sender, taken: Result<(), HotelError>|
            {
                &&& key_of(copy) == key_of(link)
                &&& #[trigger] call_ensures(V::add, (&target, copy, identity), taken)
                &&& match taken {
                    Err(e) => made == 3 && next == ResultRelocation::<V::Ticket>::Err(e),
                    Ok(()) => made == 4 && call_ensures(V::on_join, (&target, &link), next),
                }
            }
    }

    /// What a move makes of the answers of the rooms: the current room is
    /// told once that the connection leaves, with the sender and without a
    /// reason, and what it answers to that is not looked at. Then it is asked
    /// once to drop the connection. Where it refuses, its error is the result,
    /// after two calls. Where it agrees, the move goes on as `lands` says.
    pub open spec fn moves(
        current: V,
        link: Sender,
        target: V,
        identity: V::Erased,
        made: int,
        next: ResultRelocation<V::Ticket>,
    ) -> bool {
        exists|left: Result<(), HotelError>, dropped: Result<(), HotelError>|
            {
                &&& #[trigger] call_ensures(
                    V::on_leave,
                    (&current, &link, None::<(u16, &str)>),
                    left,
                )
                &&& #[trigger] call_ensures(V::remove, (&current, &link), dropped)
                &&& match dropped {
                    Err(e) => made == 2 && next == ResultRelocation::<V::Ticket>::Err(e),
                    Ok(()) => Self::lands(link, target, identity, made, next),
                }
            }
    }

    /// Carries out one request to move the connection, if there is one: the
    /// current room is told that the member leaves, without a reason, and
    /// drops it; the target becomes the current room, takes the member in
    /// with its new identity, and is told that it has arrived. The result is
    /// what the target answers to the arrival: it may ask for the next move.
    ///
    /// Where the current room does not drop the member, the move ends there
    /// with that error, after two calls. Where the target does not take it
    /// in, the move ends there with that error, after three.
    pub fn relocate(&mut self, r: Option<(V, V::Erased)>) -> (next: ResultRelocation<V::Ticket>)
        ensures
            final(self).link() == old(self).link(),
            r is None ==> final(self).current() == old(self).current() && final(self).script()
                == old(self).script() && next == ResultRelocation::<V::Ticket>::Ok(None),
            r is Some ==> Self::moves(
                old(self).current(),
                old(self).link(),
                r->Some_0.0,
                r->Some_0.1,
                final(self).script().len() - old(self).script().len(),
                next,
            ),
            r is Some ==> ({
                let made = final(self).script().len() - old(self).script().len();
                &&& 2 <= made <= 4
                &&& final(self).script() == old(self).script() + hop(
                    old(self).current(),
                    r->Some_0.0,
                ).take(made)
                &&& made == 2 ==> final(self).current() == old(self).current() && next is Err
                &&& made >= 3 ==> final(self).current() == r->Some_0.0
                &&& made == 3 ==> next is Err
                &&& next is Ok ==> made == 4
                &&& old(self).healthy() && made == 4 ==> final(self).healthy()
            }),
    {
        match r {
            None => Ok(None),
            Some((target, identity)) => {
                let ghost before = self.script@;
                let ghost steps = hop(self.room, target);
                let left = self.room.on_leave(&self.sender, None);
                let dropped = self.room.remove(&self.sender);
                match dropped {
                    Ok(()) => {},
                    Err(e) => {
                        proof {
                            self.script@ = before + steps.take(2);
                        }
                        return Err(e);
                    },
                }
                self.room = target;
                let copy = duplicate(&self.sender);
                let taken = self.room.add(copy, identity);
                match taken {
                    Ok(()) => {},
                    Err(e) => {
                        proof {
                            self.script@ = before + steps.take(3);
                            assert(Self::lands(
                                self.sender,
                                target,
                                identity,
                                3,
                                ResultRelocation::<V::Ticket>::Err(e),
                            ));
                        }
                        return Err(e);
                    },
                }
                proof {
                    self.script@ = before + steps.take(4);
                    if old(self).healthy() {
                        lemma_hop_lands(before, old(self).room, target);
                    }
                }
                let next = self.room.on_join(&self.sender);
                proof {
                    assert(Self::lands(self.sender, target, identity, 4, next));
                }
                next
            },
        }
    }

    /// Hands a frame that arrived on the connection to the current room,
    /// once, with the sender of the connection. The result is what the room
    /// answers: it may ask for a move.
    pub fn on_message(&mut self, msg: Message) -> (next: ResultRelocation<V::Ticket>)
        ensures
            call_ensures(V::on_message, (&old(self).current(), &old(self).link(), msg), next),
            final(self).link() == old(self).link(),
            final(self).current() == old(self).current(),
            final(self).script() == old(self).script().push(Step::Message(old(self).current())),
            old(self).healthy() ==> final(self).healthy(),
    {
        proof {
            let before = self.script@;
            self.script@ = before.push(Step::Message(self.room));
            lemma_phase_push(before, Step::Message(self.room));
        }
        self.room.on_message(&self.sender, msg)
    }

    /// The connection went away with the given close code and closing words:
    /// the current room is told so, with the sender, the code and the words,
    /// then it is asked to drop the member. What the first step answers is
    /// not looked at; the result is that of the second.
    pub fn on_close(&mut self, code: u16, reason: &str) -> (r: Result<(), HotelError>)
        ensures
            exists|left: Result<(), HotelError>| #[trigger]
                call_ensures(
                    V::on_leave,
                    (&old(self).current(), &old(self).link(), Some((code, reason))),
                    left,
                ),
            call_ensures(V::remove, (&old(self).current(), &old(self).link()), r),
            final(self).link() == old(self).link(),
            final(self).current() == old(self).current(),
            final(self).script() == old(self).script() + seq![
                Step::Leave(old(self).current()),
                Step::Remove(old(self).current()),
            ],
            old(self).healthy() ==> phase_after(final(self).script()) == Phase::<V>::Outside,
    {
        proof {
            let before = self.script@;
            let left = before.push(Step::Leave(self.room));
            self.script@ = left.push(Step::Remove(self.room));
            assert(self.script@ =~= before + seq![Step::Leave(self.room), Step::Remove(self.room)]);
            lemma_phase_push(before, Step::Leave(self.room));
            lemma_phase_push(left, Step::Remove(self.room));
        }
        let left = self.room.on_leave(&self.sender, Some((code, reason)));
        self.room.remove(&self.sender)
    }
}

/// One more call moves the connection on by one step.
pub proof fn lemma_phase_push<V>(script: Seq<Step<V>>, step: Step<V>)
    ensures
        phase_after(script.push(step)) == phase_then(phase_after(script), step),
{
    assert(script.push(step).drop_last() =~= script);
}

/// A whole move from the room that a connection is in leaves it in the
/// target, told of its arrival.
pub proof fn lemma_hop_lands<V>(before: Seq<Step<V>>, current: V, target: V)
    requires
        phase_after(before) == Phase::Arrived(current) || phase_after(before) == Phase::Settled(
            current,
        ),
    ensures
        phase_after(before + hop(current, target)) == Phase::Settled(target),
        hop(current, target).take(4) == hop(current, target),
{
    let steps = hop(current, target);
    let s1 = before.push(steps[0]);
    let s2 = s1.push(steps[1]);
    let s3 = s2.push(steps[2]);
    let s4 = s3.push(steps[3]);
    lemma_phase_push(before, steps[0]);
    lemma_phase_push(s1, steps[1]);
    lemma_phase_push(s2, steps[2]);
    lemma_phase_push(s3, steps[3]);
    assert(s4 =~= before + steps);
    assert(steps.take(4) =~= steps);
}

} // verus!
