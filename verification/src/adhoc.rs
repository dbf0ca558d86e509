//! A handler made of one function.

use vstd::prelude::*;
use std::marker::PhantomData;
use crate::context::Context;
use crate::frame::Message;
use crate::room::ResultRelocation;
use crate::room::RoomHandler;

verus! {

/// A handler that answers every frame by calling one function, and does
/// nothing when a member joins or leaves. `G` is what the room keeps about
/// each member, `T` what the function returns to ask for a move.
#[verifier::reject_recursive_types(F)]
#[verifier::reject_recursive_types(G)]
#[verifier::reject_recursive_types(T)]
pub struct AdHoc<F, G, T> where F: Fn(Context<G>, Message) -> ResultRelocation<T> {
    f: F,
    guest: PhantomData<G>,
    ticket: PhantomData<T>,
}

impl<F, G, T> AdHoc<F, G, T> where F: Fn(Context<G>, Message) -> ResultRelocation<T> {
    /// The function can be called on every frame, whoever sent it.
    #[verifier::type_invariant]
    closed spec fn callable(&self) -> bool {
        forall|cx: Context<G>, msg: Message| call_requires(self.f, (cx, msg))
    }

    /// The function that the handler calls.
    pub closed spec fn func(&self) -> F {
        self.f
    }

    /// Wraps `f` into a handler. `f` must accept every context and frame.
    pub fn new(f: F) -> (handler: Self)
        requires
            forall|cx: Context<G>, msg: Message| call_requires(f, (cx, msg)),
        ensures
            handler.func() == f,
    {
        AdHoc { f, guest: PhantomData, ticket: PhantomData }
    }
}

impl<F, G, T> RoomHandler for AdHoc<F, G, T> where
    F: Fn(Context<G>, Message) -> ResultRelocation<T>,
 {
    type Guest = G;

    type Ticket = T;

    /// Does nothing and asks for no move: no frame is sent, and the
    /// identity of the member stays as it is.
    fn on_join(&mut self, cx: Context<G>) -> (r: ResultRelocation<T>)
        ensures
            r == ResultRelocation::<T>::Ok(None),
            *final(self) == *old(self),
            *final(cx.identity) == *old(cx.identity),
            final(cx.journal)@ == old(cx.journal)@,
    {
        Ok(None)
    }

    /// Does nothing: no frame is sent, and the identity of the member stays
    /// as it is.
    fn on_leave(&mut self, cx: Context<G>, reason: Option<(u16, &str)>)
        ensures
            *final(self) == *old(self),
            *final(cx.identity) == *old(cx.identity),
            final(cx.journal)@ == old(cx.journal)@,
    {
    }

    /// Calls the function on the context and the frame, and returns what
    /// it returns.
    fn on_message(&mut self, cx: Context<G>, msg: Message) -> (r: ResultRelocation<T>)
        ensures
            call_ensures(old(self).func(), (cx, msg), r),
            *final(self) == *old(self),
    {
        proof {
            use_type_invariant(&*self);
        }
        (self.f)(cx, msg)
    }
}

} // verus!
