//! Rooms for a websocket server: connected clients live in rooms, each room is
//! driven by a handler, and a handler may move its caller into another room.
//!
//! A [`RoomInner`] is the state of one room: a handler, the table of its
//! members and the record of the frames handed out for it. Its operations
//! say exactly what they do to the table. A [`Room`] shares such a state
//! between connections behind a lock. A [`Handler`] is what one connection
//! keeps: it hands the frames of the connection to the room it is in and
//! carries out the moves that the rooms ask for, one at a time. What holds
//! of tables, broadcasts and moves whatever the handlers do is proved in
//! [`laws`].

pub mod adapter;
pub mod adhoc;
pub mod context;
pub mod equal;
pub mod frame;
pub mod laws;
pub mod link;
pub mod members;
pub mod room;
pub mod shared;

pub use crate::adapter::Handler;
pub use crate::adapter::Relocation;
pub use crate::adapter::RoomAny;
pub use crate::adhoc::AdHoc;
pub use crate::context::Context;
pub use crate::frame::Message;
pub use crate::link::HotelError;
pub use crate::room::ResultRelocation;
pub use crate::room::RoomHandler;
pub use crate::room::RoomInner;
pub use crate::shared::Room;
pub use crate::shared::RoomWeak;
