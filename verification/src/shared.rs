//! Rooms as they are shared between connections: one lock round each room.

use vstd::prelude::*;
use std::sync::Arc;
use std::sync::Mutex;
use std::sync::MutexGuard;
use std::sync::Weak;
use ws::Sender;
use crate::frame::Message;
use crate::link::Delivery;
use crate::link::HotelError;
use crate::room::ResultRelocation;
use crate::room::RoomHandler;
use crate::room::RoomInner;

verus! {

/// `std::sync::Mutex`, a lock round a value. Nothing inside it is visible
/// here: what it protects is known only while the lock is held.
#[verifier::external_type_specification]
#[verifier::external_body]
#[verifier::reject_recursive_types(T)]
pub struct ExMutex<T: ?Sized>(Mutex<T>);

/// `std::sync::MutexGuard`, the proof that a lock is held.
#[verifier::external_type_specification]
#[verifier::external_body]
#[verifier::reject_recursive_types(T)]
pub struct ExMutexGuard<'a, T: ?Sized + 'a>(MutexGuard<'a, T>);

/// A `std::sync::Weak`: a reference to a shared value that does not keep the
/// value alive. Verus takes no declaration of `Weak` itself, so it is held
/// in a field that Verus does not look into.
#[verifier::external_body]
#[verifier::reject_recursive_types(T)]
pub struct WeakCell<T> {
    weak: Weak<T>,
}

/// `std::sync::Arc::downgrade`: a reference to the value of `owner` that
/// does not keep it alive. Nothing is claimed of it.
#[verifier::external_body]
fn loosen<T>(owner: &Arc<T>) -> (weak: WeakCell<T>)
{
    WeakCell { weak: Arc::downgrade(owner) }
}

/// `std::sync::Weak::upgrade`: an owner of the value that `weak` refers to,
/// if the value is still alive. Whether it is depends on what the rest of the
/// program holds at that moment, so nothing is claimed of the result.
#[verifier::external_body]
fn revive<T>(weak: &WeakCell<T>) -> (owner: Option<Arc<T>>)
{
    weak.weak.upgrade()
}

/// The `Clone` impl of `std::sync::Weak`: one more reference to the same
/// value, which keeps it alive no more than the first. Nothing is claimed of it.
#[verifier::external_body]
fn loosen_again<T>(weak: &WeakCell<T>) -> (copy: WeakCell<T>)
{
    WeakCell { weak: weak.weak.clone() }
}

/// `std::sync::Mutex::new`: a lock round `value`. Nothing is claimed of it.
#[verifier::external_body]
fn shut<T>(value: T) -> (lock: Mutex<T>)
{
    Mutex::new(value)
}

/// `std::sync::Mutex::lock`: waits for the lock and returns its guard, or
/// nothing where the lock is poisoned. Nothing is claimed of the result.
#[verifier::external_body]
fn hold<'a, T>(lock: &'a Mutex<T>) -> (guard: Option<MutexGuard<'a, T>>)
{
    match lock.lock() {
        Ok(guard) => Some(guard),
        Err(_) => None,
    }
}

/// The `DerefMut` impl of `std::sync::MutexGuard`: the value that the lock
/// protects, for as long as the guard is borrowed. Nothing is claimed of it.
#[verifier::external_body]
fn reach<'a, 'b, T>(guard: &'b mut MutexGuard<'a, T>) -> (value: &'b mut T)
{
    &mut **guard
}

/// `std::sync::Arc::clone`: one more owner of the same value.
#[verifier::external_body]
fn another<T>(owner: &Arc<T>) -> (copy: Arc<T>)
    ensures
        copy == *owner,
{
    Arc::clone(owner)
}

/// `std::sync::Arc::ptr_eq` on two owners of locks: whether they hold the
/// same allocation. A lock is never copied: one more owner of a lock comes
/// only from `Arc::clone` or from `Weak::upgrade`, and both hand out the
/// allocation that they were given. So two owners hold the same lock where,
/// and only where, they hold the same allocation.
#[verifier::external_body]
fn same_cell<T>(a: &Arc<Mutex<T>>, b: &Arc<Mutex<T>>) -> (r: bool)
    ensures
        r == (*a == *b),
{
    Arc::ptr_eq(a, b)
}

/// A room that any number of connections can hold at once. Its state lies
/// behind a lock, and every method takes the lock for the time of the call.
/// The lock cannot be taken twice: a callback of a room, which runs under
/// its lock, must call no method of that same room, or the call never
/// returns.
#[verifier::reject_recursive_types(R)]
pub struct Room<R: RoomHandler> {
    cell: Arc<Mutex<RoomInner<R>>>,
    born: Ghost<RoomInner<R>>,
}

impl<R: RoomHandler> Room<R> {
    /// The cell that the handle leads to. Two handles lead to the same room
    /// where they lead to the same cell.
    pub closed spec fn cell(&self) -> Arc<Mutex<RoomInner<R>>> {
        self.cell
    }

    /// The state in which the room was made, as the handle remembers it.
    pub closed spec fn born(&self) -> RoomInner<R> {
        self.born@
    }

    /// A room with the given handler and no member: that is the state which
    /// is put behind the lock, and which the handle remembers.
    pub fn new(handler: R) -> (room: Self)
        ensures
            room.born().handler == handler,
            room.born().members@ == Seq::<(R::Guest, Sender)>::empty(),
            room.born().journal@ == Seq::<Delivery>::empty(),
    {
        let inner = RoomInner::new(handler);
        let ghost first = inner;
        Room { cell: Arc::new(shut(inner)), born: Ghost(first) }
    }

    /// One more handle to the same room.
    pub fn share(&self) -> (room: Self)
        ensures
            room == *self,
    {
        Room { cell: another(&self.cell), born: self.born }
    }

    /// Whether the two handles lead to the same room, that is, to the same
    /// cell. No lock is taken and nothing changes.
    pub fn same(&self, other: &Self) -> (r: bool)
        ensures
            r == (self.cell() == other.cell()),
    {
        same_cell(&self.cell, &other.cell)
    }

    /// Runs `f` on the handler of the room, under the lock of the room.
    /// No method of this room may be called from within `f`: the lock is
    /// held and cannot be taken twice.
    pub fn with<T, F: FnOnce(&mut R) -> T>(&self, f: F) -> (r: Result<T, HotelError>)
        requires
            forall|h: &mut R| call_requires(f, (h,)),
        ensures
            r is Ok ==> exists|h: &mut R| #[trigger] call_ensures(f, (h,), r->Ok_0),
            r is Err ==> r->Err_0 is Poisoned,
    {
        match hold(&self.cell) {
            None => Err(HotelError::Poisoned),
            Some(mut guard) => {
                let inner = reach(&mut guard);
                let out = f(&mut inner.handler);
                assert(exists|h: &mut R| #[trigger] call_ensures(f, (h,), out));
                let ghost seen = out;
                let r: Result<T, HotelError> = Ok(out);
                assert(r->Ok_0 == seen);
                r
            },
        }
    }

    /// [`RoomInner::on_join`] under the lock of the room: unless the lock is
    /// poisoned, the answer is that of the room as the lock held it.
    pub fn on_join(&self, sender: &Sender) -> (r: ResultRelocation<R::Ticket>)
        ensures
            !(r is Err && r->Err_0 is Poisoned) ==> exists|inner: &mut RoomInner<R>|
                #[trigger] call_ensures(RoomInner::<R>::on_join, (inner, sender), r),
    {
        match hold(&self.cell) {
            None => Err(HotelError::Poisoned),
            Some(mut guard) => {
                let r = reach(&mut guard).on_join(sender);
                assert(exists|inner: &mut RoomInner<R>| #[trigger]
                    call_ensures(RoomInner::<R>::on_join, (inner, sender), r));
                r
            },
        }
    }

    /// [`RoomInner::on_message`] under the lock of the room: unless the lock
    /// is poisoned, the answer is that of the room as the lock held it.
    pub fn on_message(&self, sender: &Sender, msg: Message) -> (r: ResultRelocation<R::Ticket>)
        ensures
            !(r is Err && r->Err_0 is Poisoned) ==> exists|inner: &mut RoomInner<R>|
                #[trigger] call_ensures(RoomInner::<R>::on_message, (inner, sender, msg), r),
    {
        match hold(&self.cell) {
            None => Err(HotelError::Poisoned),
            Some(mut guard) => {
                let r = reach(&mut guard).on_message(sender, msg);
                assert(exists|inner: &mut RoomInner<R>| #[trigger]
                    call_ensures(RoomInner::<R>::on_message, (inner, sender, msg), r));
                r
            },
        }
    }

    /// [`RoomInner::on_leave`] under the lock of the room. It fails only
    /// where the connection is no member or the lock is poisoned.
    pub fn on_leave(&self, sender: &Sender, reason: Option<(u16, &str)>) -> (r: Result<
        (),
        HotelError,
    >)
        ensures
            r is Err ==> r->Err_0 is NotMember || r->Err_0 is Poisoned,
            !(r is Err && r->Err_0 is Poisoned) ==> exists|inner: &mut RoomInner<R>|
                #[trigger] call_ensures(RoomInner::<R>::on_leave, (inner, sender, reason), r),
    {
        match hold(&self.cell) {
            None => Err(HotelError::Poisoned),
            Some(mut guard) => {
                let r = reach(&mut guard).on_leave(sender, reason);
                assert(exists|inner: &mut RoomInner<R>| #[trigger]
                    call_ensures(RoomInner::<R>::on_leave, (inner, sender, reason), r));
                r
            },
        }
    }

    /// [`RoomInner::broadcast`] under the lock of the room. It fails only
    /// where a connection refuses the frame or the lock is poisoned.
    pub fn broadcast(&self, msg: Message) -> (r: Result<(), HotelError>)
        ensures
            r is Err ==> r->Err_0 is Transport || r->Err_0 is Poisoned,
            !(r is Err && r->Err_0 is Poisoned) ==> exists|inner: &mut RoomInner<R>|
                #[trigger] call_ensures(RoomInner::<R>::broadcast, (inner, msg), r),
    {
        match hold(&self.cell) {
            None => Err(HotelError::Poisoned),
            Some(mut guard) => {
                let r = reach(&mut guard).broadcast(msg);
                assert(exists|inner: &mut RoomInner<R>| #[trigger]
                    call_ensures(RoomInner::<R>::broadcast, (inner, msg), r));
                r
            },
        }
    }

    /// [`RoomInner::try_add`] under the lock of the room. It fails only
    /// where the connection is a member already or the lock is poisoned.
    pub fn add(&self, sender: Sender, identity: R::Guest) -> (r: Result<(), HotelError>)
        ensures
            r is Err ==> r->Err_0 is AlreadyMember || r->Err_0 is Poisoned,
            !(r is Err && r->Err_0 is Poisoned) ==> exists|inner: &mut RoomInner<R>|
                #[trigger] call_ensures(RoomInner::<R>::try_add, (inner, sender, identity), r),
    {
        match hold(&self.cell) {
            None => Err(HotelError::Poisoned),
            Some(mut guard) => {
                let r = reach(&mut guard).try_add(sender, identity);
                assert(exists|inner: &mut RoomInner<R>| #[trigger]
                    call_ensures(RoomInner::<R>::try_add, (inner, sender, identity), r));
                r
            },
        }
    }

    /// [`RoomInner::try_remove`] under the lock of the room. It fails only
    /// where the connection is no member or the lock is poisoned.
    pub fn remove(&self, sender: &Sender) -> (r: Result<(), HotelError>)
        ensures
            r is Err ==> r->Err_0 is NotMember || r->Err_0 is Poisoned,
            !(r is Err && r->Err_0 is Poisoned) ==> exists|inner: &mut RoomInner<R>|
                #[trigger] call_ensures(RoomInner::<R>::try_remove, (inner, sender), r),
    {
        match hold(&self.cell) {
            None => Err(HotelError::Poisoned),
            Some(mut guard) => {
                let r = reach(&mut guard).try_remove(sender);
                assert(exists|inner: &mut RoomInner<R>| #[trigger]
                    call_ensures(RoomInner::<R>::try_remove, (inner, sender), r));
                r
            },
        }
    }

    /// [`RoomInner::len`] under the lock of the room: the number of members
    /// that the room has at the time of the call. It fails only where the
    /// lock is poisoned.
    pub fn len(&self) -> (r: Result<usize, HotelError>)
        ensures
            r is Ok ==> exists|inner: &mut RoomInner<R>|
                #[trigger] call_ensures(RoomInner::<R>::len, (&*inner,), r->Ok_0),
            r is Err ==> r->Err_0 is Poisoned,
    {
        match hold(&self.cell) {
            None => Err(HotelError::Poisoned),
            Some(mut guard) => {
                let inner = reach(&mut guard);
                let n = inner.len();
                assert(exists|inner: &mut RoomInner<R>|
                    #[trigger] call_ensures(RoomInner::<R>::len, (&*inner,), n));
                let r: Result<usize, HotelError> = Ok(n);
                assert(r->Ok_0 == n);
                r
            },
        }
    }

    /// A reference to this room that does not keep it alive.
    pub fn downgrade(&self) -> (weak: RoomWeak<R>)
        ensures
            weak.target() == *self,
    {
        RoomWeak { cell: loosen(&self.cell), of: Ghost(*self) }
    }
}

/// A reference to a room that does not keep the room alive. A handler may
/// hold one to a room that holds the handler's own room in turn.
#[verifier::reject_recursive_types(R)]
pub struct RoomWeak<R: RoomHandler> {
    cell: WeakCell<Mutex<RoomInner<R>>>,
    of: Ghost<Room<R>>,
}

impl<R: RoomHandler> RoomWeak<R> {
    /// The room that the reference was taken from.
    pub closed spec fn target(&self) -> Room<R> {
        self.of@
    }

    /// One more reference to the same room.
    pub fn share(&self) -> (weak: Self)
        ensures
            weak.target() == self.target(),
    {
        RoomWeak { cell: loosen_again(&self.cell), of: self.of }
    }

    /// A handle to the room, if the room is still alive. Whether it is
    /// depends on the handles that the rest of the program holds. A handle
    /// that comes back remembers the state in which the target was made.
    pub fn upgrade(&self) -> (room: Option<Room<R>>)
        ensures
            room is Some ==> room->Some_0.born() == self.target().born(),
    {
        match revive(&self.cell) {
            Some(cell) => Some(Room { cell, born: Ghost(self.of@.born@) }),
            None => None,
        }
    }
}

} // verus!
