//! The boundary with the websocket layer: the outgoing half of a connection,
//! how it is told apart from the others, and the record of what was handed to it.

use vstd::prelude::*;
use ws::Sender;
use crate::frame::Message;
use crate::frame::MessageView;

verus! {

/// `ws::Sender`, the outgoing half of one connection. Nothing inside it is
/// visible here.
#[verifier::external_type_specification]
#[verifier::external_body]
pub struct ExSender(ws::Sender);

/// `ws::Error`, the error of the websocket layer. It is carried through as
/// it comes and never looked into.
#[verifier::external_type_specification]
#[verifier::external_body]
pub struct ExTransportError(ws::Error);

/// The token that the websocket layer gave to the connection behind `sender`.
pub uninterp spec fn sender_token(sender: Sender) -> usize;

/// The connection number that the websocket layer gave to the connection behind `sender`.
pub uninterp spec fn sender_connection(sender: Sender) -> u32;

/// What identifies a connection within the process: its token and its connection number.
pub struct Key {
    pub token: usize,
    pub connection: u32,
}

/// The identity of the connection behind a sender.
pub open spec fn key_of(sender: Sender) -> Key {
    Key { token: sender_token(sender), connection: sender_connection(sender) }
}

/// `ws::Sender::token`, taken out of its `mio::Token`: the result is the
/// token stored in the sender, which depends on nothing else.
#[verifier::external_body]
fn token_of(sender: &Sender) -> (t: usize)
    ensures
        t == sender_token(*sender),
{
    sender.token().0
}

/// `ws::Sender::connection_id`: the result is the connection number stored in
/// the sender, which depends on nothing else.
#[verifier::external_body]
fn connection_of(sender: &Sender) -> (c: u32)
    ensures
        c == sender_connection(*sender),
{
    sender.connection_id()
}

/// The `Clone` impl of `ws::Sender`, which is derived: the copy carries the
/// same token and the same connection number as the sender it was made from.
#[verifier::external_body]
pub(crate) fn duplicate(sender: &Sender) -> (copy: Sender)
    ensures
        sender_token(copy) == sender_token(*sender),
        sender_connection(copy) == sender_connection(*sender),
{
    sender.clone()
}

/// `ws::Sender::send` with a frame built from `msg`: the frame is put into
/// the queue of the websocket layer, and the call waits while that queue is
/// full. Whether the frame is accepted depends on the state of the
/// connection, so nothing is claimed of the result.
#[verifier::external_body]
fn transmit(sender: &Sender, msg: &Message) -> (r: Result<(), ws::Error>)
{
    let frame = match msg {
        Message::Text(t) => ws::Message::Text(t.clone()),
        Message::Binary(b) => ws::Message::Binary(b.clone()),
    };
    sender.send(frame)
}

/// Reads the identity of the connection behind `sender`.
pub fn key(sender: &Sender) -> (k: Key)
    ensures
        k == key_of(*sender),
{
    Key { token: token_of(sender), connection: connection_of(sender) }
}

/// Tells whether two senders lead to the same connection.
pub fn same_connection(a: &Sender, b: &Sender) -> (r: bool)
    ensures
        r == (key_of(*a) == key_of(*b)),
{
    token_of(a) == token_of(b) && connection_of(a) == connection_of(b)
}

/// What went wrong while a room served a connection.
pub enum HotelError {
    /// The websocket layer refused a frame.
    Transport(ws::Error),
    /// The connection is not a member of the room it was looked up in.
    NotMember,
    /// The connection is already a member of the room it was to be added to.
    AlreadyMember,
    /// A member was handed to a room whose handler keeps another kind of identity.
    WrongGuest,
    /// The lock of the room is poisoned: a callback panicked while it held the room.
    Poisoned,
}

/// One attempt to hand a frame to a connection.
pub struct Delivery {
    pub to: Key,
    pub frame: MessageView,
    pub accepted: bool,
}

/// The record of the frames handed to the websocket layer, oldest first.
pub struct Journal {
    log: Ghost<Seq<Delivery>>,
}

impl View for Journal {
    type V = Seq<Delivery>;

    closed spec fn view(&self) -> Seq<Delivery> {
        self.log@
    }
}

impl Journal {
    /// An empty record.
    pub fn new() -> (j: Journal)
        ensures
            j@ == Seq::<Delivery>::empty(),
    {
        Journal { log: Ghost(Seq::empty()) }
    }

    /// Hands `msg` to the connection behind `to` and records the attempt.
    /// The result is the answer of the websocket layer.
    pub fn deliver(&mut self, to: &Sender, msg: &Message) -> (r: Result<(), HotelError>)
        ensures
            final(self)@ == old(self)@.push(
                Delivery { to: key_of(*to), frame: msg@, accepted: r is Ok },
            ),
            r is Err ==> r->Err_0 is Transport,
    {
        let answer = transmit(to, msg);
        proof {
            self.log@ = self.log@.push(
                Delivery { to: key_of(*to), frame: msg@, accepted: answer is Ok },
            );
        }
        match answer {
            Ok(()) => Ok(()),
            Err(e) => Err(HotelError::Transport(e)),
        }
    }
}

} // verus!
