//! `==` on rooms: two handles are equal where they lead to the same room.

use vstd::prelude::*;
use vstd::std_specs::cmp::PartialEqSpecImpl;
use crate::room::RoomHandler;
use crate::shared::Room;

verus! {

impl<R: RoomHandler> PartialEq for Room<R> {
    fn eq(&self, other: &Self) -> (r: bool) {
        self.same(other)
    }
}

impl<R: RoomHandler> PartialEqSpecImpl for Room<R> {
    open spec fn obeys_eq_spec() -> bool {
        true
    }

    open spec fn eq_spec(&self, other: &Self) -> bool {
        self.cell() == other.cell()
    }
}

impl<R: RoomHandler> Eq for Room<R> {
}

} // verus!
