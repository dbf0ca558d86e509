//! What holds of rooms and of the moves between them, whatever the handlers do.

use vstd::prelude::*;
use ws::Sender;
use crate::adapter::Handler;
use crate::adapter::Phase;
use crate::adapter::RoomAny;
use crate::adapter::Step;
use crate::adapter::lemma_phase_push;
use crate::adapter::orderly;
use crate::adapter::phase_after;
use crate::context::Context;
use crate::frame::MessageView;
use crate::link::HotelError;
use crate::room::ResultRelocation;
use crate::room::RoomHandler;
use crate::room::RoomInner;
use crate::shared::Room;
use crate::link::Delivery;
use crate::link::Key;
use crate::link::key_of;
use crate::members::broadcast_adds;
use crate::members::distinct;
use crate::members::keys_of;
use crate::members::place_of;

verus! {

/// A successful broadcast serves every member once, in table order: the
/// record grows by one accepted delivery of the frame for each member, the
/// deliveries stand in the order of the table, and no connection is served
/// twice.
pub proof fn lemma_broadcast_coverage(keys: Seq<Key>, frame: MessageView, added: Seq<Delivery>)
    requires
        distinct(keys),
        broadcast_adds(keys, frame, true, added),
    ensures
        added.len() == keys.len(),
        forall|i: int|
            0 <= i < keys.len() ==> #[trigger] added[i] == (Delivery {
                to: keys[i],
                frame: frame,
                accepted: true,
            }),
        forall|i: int, j: int| 0 <= i < j < added.len() ==> added[i].to != added[j].to,
{
}

/// A broadcast that fails stops at the refusal: the members before the one
/// that refused were served in table order, the refusal is the last entry
/// of what the record grew by, and no later member was tried.
pub proof fn lemma_broadcast_stops(keys: Seq<Key>, frame: MessageView, added: Seq<Delivery>)
    requires
        broadcast_adds(keys, frame, false, added),
    ensures
        1 <= added.len() <= keys.len(),
        forall|i: int|
            0 <= i < added.len() ==> #[trigger] added[i] == (Delivery {
                to: keys[i],
                frame: frame,
                accepted: i < added.len() - 1,
            }),
{
    let k = choose|k: int|
        0 <= k < keys.len() && added == #[trigger] crate::members::accepted_by(
            keys.take(k),
            frame,
        ).push(Delivery { to: keys[k], frame: frame, accepted: false });
    assert(added.len() == k + 1);
}

/// Taking a key out of a table without repeats leaves a table without
/// repeats that lacks the key and holds every other key it held, in the
/// order in which it held them.
pub proof fn lemma_without_key(keys: Seq<Key>, key: Key)
    requires
        distinct(keys),
        keys.contains(key),
    ensures
        distinct(keys.remove(place_of(keys, key))),
        !keys.remove(place_of(keys, key)).contains(key),
        forall|k: Key| k != key ==> keys.remove(place_of(keys, key)).contains(k) == keys.contains(k),
        forall|i: int, j: int|
            0 <= i < j < keys.len() && i != place_of(keys, key) && j != place_of(keys, key)
                ==> place_of(keys.remove(place_of(keys, key)), keys[i]) < place_of(
                keys.remove(place_of(keys, key)),
                keys[j],
            ),
{
    let at = place_of(keys, key);
    let rest = keys.remove(at);
    assert forall|i: int| 0 <= i < rest.len() implies #[trigger] rest[i] == (if i < at {
        keys[i]
    } else {
        keys[i + 1]
    }) by {}
    assert(distinct(rest)) by {
        assert forall|i: int, j: int| 0 <= i < j < rest.len() implies rest[i] != rest[j] by {
            let a = if i < at { i } else { i + 1 };
            let b = if j < at { j } else { j + 1 };
            assert(keys[a] != keys[b]);
        }
    }
    assert(!rest.contains(key)) by {
        if rest.contains(key) {
            let j = choose|j: int| 0 <= j < rest.len() && rest[j] == key;
            let b = if j < at { j } else { j + 1 };
            if b < at {
                assert(keys[b] != keys[at]);
            } else {
                assert(keys[at] != keys[b]);
            }
        }
    }
    assert forall|k: Key| k != key implies rest.contains(k) == keys.contains(k) by {
        if keys.contains(k) {
            let j = choose|j: int| 0 <= j < keys.len() && keys[j] == k;
            if j < at {
                assert(rest[j] == k);
            } else {
                assert(rest[j - 1] == k);
            }
        }
        if rest.contains(k) {
            let j = choose|j: int| 0 <= j < rest.len() && rest[j] == k;
            let b = if j < at { j } else { j + 1 };
            assert(keys[b] == k);
        }
    }
    assert forall|i: int, j: int|
        0 <= i < j < keys.len() && i != at && j != at implies place_of(rest, keys[i]) < place_of(
        rest,
        keys[j],
    ) by {
        let a = if i < at { i } else { i - 1 };
        let b = if j < at { j } else { j - 1 };
        assert(rest[a] == keys[i]);
        assert(rest[b] == keys[j]);
        let pa = place_of(rest, keys[i]);
        let pb = place_of(rest, keys[j]);
        assert(0 <= pa < rest.len() && rest[pa] == keys[i]);
        assert(0 <= pb < rest.len() && rest[pb] == keys[j]);
        if pa < a {
            assert(rest[pa] != rest[a]);
        }
        if a < pa {
            assert(rest[a] != rest[pa]);
        }
        if pb < b {
            assert(rest[pb] != rest[b]);
        }
        if b < pb {
            assert(rest[b] != rest[pb]);
        }
    }
}

/// Appending a key that a table without repeats lacks gives a table without
/// repeats that holds the key, at its end, and every key it held.
pub proof fn lemma_with_key(keys: Seq<Key>, key: Key)
    requires
        distinct(keys),
        !keys.contains(key),
    ensures
        distinct(keys.push(key)),
        keys.push(key).contains(key),
        place_of(keys.push(key), key) == keys.len(),
        forall|k: Key| k != key ==> keys.push(key).contains(k) == keys.contains(k),
{
    let more = keys.push(key);
    assert(more[keys.len() as int] == key);
    assert forall|i: int, j: int| 0 <= i < j < more.len() implies more[i] != more[j] by {
        if j == keys.len() {
            assert(keys[i] == more[i]);
        }
    }
    assert forall|k: Key| k != key implies more.contains(k) == keys.contains(k) by {
        if keys.contains(k) {
            let j = choose|j: int| 0 <= j < keys.len() && keys[j] == k;
            assert(more[j] == k);
        }
        if more.contains(k) {
            let j = choose|j: int| 0 <= j < more.len() && more[j] == k;
            assert(keys[j] == k);
        }
    }
}

/// A move takes the member out of the room it leaves and puts it into the
/// room it goes to, with the identity that came with the request; both
/// tables stay free of repeats.
pub proof fn lemma_relocation_moves_member<A, B>(
    from: Seq<(A, Sender)>,
    to: Seq<(B, Sender)>,
    sender: Sender,
    identity: B,
)
    requires
        distinct(keys_of(from)),
        distinct(keys_of(to)),
        keys_of(from).contains(key_of(sender)),
        !keys_of(to).contains(key_of(sender)),
    ensures
        ({
            let left = from.remove(place_of(keys_of(from), key_of(sender)));
            let entered = to.push((identity, sender));
            &&& !keys_of(left).contains(key_of(sender))
            &&& distinct(keys_of(left))
            &&& keys_of(entered).contains(key_of(sender))
            &&& distinct(keys_of(entered))
            &&& entered[place_of(keys_of(entered), key_of(sender))].0 == identity
        }),
{
    let key = key_of(sender);
    let at = place_of(keys_of(from), key);
    lemma_without_key(keys_of(from), key);
    assert(keys_of(from.remove(at)) =~= keys_of(from).remove(at));
    lemma_with_key(keys_of(to), key);
    assert(keys_of(to.push((identity, sender))) =~= keys_of(to).push(key));
}

/// A move into the room that the member is in takes it out and puts it back
/// at the end of the table, with the identity that came with the request.
pub proof fn lemma_relocation_within_room<G>(table: Seq<(G, Sender)>, sender: Sender, identity: G)
    requires
        distinct(keys_of(table)),
        keys_of(table).contains(key_of(sender)),
    ensures
        ({
            let left = table.remove(place_of(keys_of(table), key_of(sender)));
            let entered = left.push((identity, sender));
            &&& !keys_of(left).contains(key_of(sender))
            &&& keys_of(entered).contains(key_of(sender))
            &&& distinct(keys_of(entered))
            &&& entered.len() == table.len()
            &&& entered[place_of(keys_of(entered), key_of(sender))].0 == identity
        }),
{
    let key = key_of(sender);
    let at = place_of(keys_of(table), key);
    let left = table.remove(at);
    lemma_without_key(keys_of(table), key);
    assert(keys_of(left) =~= keys_of(table).remove(at));
    lemma_with_key(keys_of(left), key);
    assert(keys_of(left.push((identity, sender))) =~= keys_of(left).push(key));
}

/// The connection `key` is a member of the room at place `room` of `hotel`
/// and of no other room. A hotel is given by the keys of each of its rooms.
pub open spec fn resides_only_in(hotel: Seq<Seq<Key>>, key: Key, room: int) -> bool {
    &&& 0 <= room < hotel.len()
    &&& forall|r: int| 0 <= r < hotel.len() ==> (#[trigger] hotel[r].contains(key) <==> r == room)
}

/// The connection `key` is a member of no room of `hotel`.
pub open spec fn resides_nowhere(hotel: Seq<Seq<Key>>, key: Key) -> bool {
    forall|r: int| 0 <= r < hotel.len() ==> !(#[trigger] hotel[r].contains(key))
}

/// The hotel after the room at place `from` has dropped `key`.
pub open spec fn departed(hotel: Seq<Seq<Key>>, key: Key, from: int) -> Seq<Seq<Key>> {
    hotel.update(from, hotel[from].remove(place_of(hotel[from], key)))
}

/// The hotel after the room at place `to` has taken `key` in.
pub open spec fn arrived(hotel: Seq<Seq<Key>>, key: Key, to: int) -> Seq<Seq<Key>> {
    hotel.update(to, hotel[to].push(key))
}

/// Every room of the hotel is free of repeats.
pub open spec fn sound(hotel: Seq<Seq<Key>>) -> bool {
    forall|r: int| 0 <= r < hotel.len() ==> distinct(#[trigger] hotel[r])
}

/// A connection that is in exactly one room is in exactly one room after a
/// move, namely in the target, also where the target is the room it was in.
/// Between the two steps of the move it is in no room, never in two. The
/// other connections stay where they are, and no room gets a repeat.
pub proof fn lemma_single_residency(hotel: Seq<Seq<Key>>, key: Key, from: int, to: int)
    requires
        sound(hotel),
        resides_only_in(hotel, key, from),
        0 <= to < hotel.len(),
    ensures
        resides_nowhere(departed(hotel, key, from), key),
        sound(departed(hotel, key, from)),
        resides_only_in(arrived(departed(hotel, key, from), key, to), key, to),
        sound(arrived(departed(hotel, key, from), key, to)),
        forall|k: Key, r: int|
            k != key && 0 <= r < hotel.len() ==> #[trigger] arrived(
                departed(hotel, key, from),
                key,
                to,
            )[r].contains(k) == hotel[r].contains(k),
{
    let left = departed(hotel, key, from);
    let done = arrived(left, key, to);
    assert(hotel[from].contains(key));
    lemma_without_key(hotel[from], key);
    assert forall|r: int| 0 <= r < left.len() implies !(#[trigger] left[r].contains(key)) by {
        if r != from {
            assert(left[r] == hotel[r]);
        }
    }
    assert forall|r: int| 0 <= r < left.len() implies distinct(#[trigger] left[r]) by {
        if r != from {
            assert(left[r] == hotel[r]);
        }
    }
    assert(!left[to].contains(key));
    lemma_with_key(left[to], key);
    assert forall|r: int| 0 <= r < done.len() implies (#[trigger] done[r].contains(key) <==> r
        == to) by {
        if r != to {
            assert(done[r] == left[r]);
        }
    }
    assert forall|r: int| 0 <= r < done.len() implies distinct(#[trigger] done[r]) by {
        if r != to {
            assert(done[r] == left[r]);
        }
    }
    assert forall|k: Key, r: int| k != key && 0 <= r < hotel.len() implies #[trigger] done[r].contains(
        k,
    ) == hotel[r].contains(k) by {
        if r != to {
            assert(done[r] == left[r]);
        }
        if r != from {
            assert(left[r] == hotel[r]);
        }
    }
}

/// Once the calls are out of order they stay so, whatever follows.
pub proof fn lemma_astray_stays<V>(script: Seq<Step<V>>, n: int)
    requires
        0 <= n <= script.len(),
        phase_after(script.take(n)) is Astray,
    ensures
        phase_after(script) is Astray,
    decreases script.len() - n,
{
    if n < script.len() {
        assert(script.take(n + 1) =~= script.take(n).push(script[n]));
        lemma_phase_push(script.take(n), script[n]);
        lemma_astray_stays(script, n + 1);
    } else {
        assert(script.take(n) =~= script);
    }
}

/// Every beginning of an orderly run of calls is orderly.
pub proof fn lemma_orderly_prefix<V>(script: Seq<Step<V>>, n: int)
    requires
        orderly(script),
        0 <= n <= script.len(),
    ensures
        orderly(script.take(n)),
{
    if phase_after(script.take(n)) is Astray {
        lemma_astray_stays(script, n);
    }
}

/// In an orderly run a room is told of an arrival only right after it took
/// the connection in: before any frame of the connection reaches it.
pub proof fn lemma_join_follows_add<V>(script: Seq<Step<V>>, i: int)
    requires
        orderly(script),
        0 <= i < script.len(),
        script[i] is Join,
    ensures
        i > 0,
        script[i - 1] == Step::Add(script[i]->Join_0),
{
    let upto = script.take(i);
    assert(script.take(i + 1) =~= upto.push(script[i]));
    lemma_orderly_prefix(script, i + 1);
    lemma_phase_push(upto, script[i]);
    assert(phase_after(upto) == Phase::Arrived(script[i]->Join_0));
    assert(i > 0);
    assert(upto =~= script.take(i - 1).push(script[i - 1]));
    lemma_phase_push(script.take(i - 1), script[i - 1]);
}

/// In an orderly run a frame reaches the room that the connection is in:
/// the call before it took the connection into that room, told that room of
/// the arrival, or handed it an earlier frame.
pub proof fn lemma_message_in_residence<V>(script: Seq<Step<V>>, i: int)
    requires
        orderly(script),
        0 <= i < script.len(),
        script[i] is Message,
    ensures
        i > 0,
        script[i - 1] == Step::Add(script[i]->Message_0) || script[i - 1] == Step::Join(
            script[i]->Message_0,
        ) || script[i - 1] == Step::Message(script[i]->Message_0),
{
    let upto = script.take(i);
    assert(script.take(i + 1) =~= upto.push(script[i]));
    lemma_orderly_prefix(script, i + 1);
    lemma_phase_push(upto, script[i]);
    assert(i > 0);
    assert(upto =~= script.take(i - 1).push(script[i - 1]));
    lemma_phase_push(script.take(i - 1), script[i - 1]);
}

/// In an orderly run nothing but the removal follows the call that tells a
/// room that the connection leaves: no frame reaches the room after it.
pub proof fn lemma_leave_is_last<V>(script: Seq<Step<V>>, i: int)
    requires
        orderly(script),
        0 <= i < script.len() - 1,
        script[i] is Leave,
    ensures
        script[i + 1] == Step::Remove(script[i]->Leave_0),
{
    let upto = script.take(i);
    assert(script.take(i + 1) =~= upto.push(script[i]));
    assert(script.take(i + 2) =~= script.take(i + 1).push(script[i + 1]));
    lemma_orderly_prefix(script, i + 1);
    lemma_orderly_prefix(script, i + 2);
    lemma_phase_push(upto, script[i]);
    lemma_phase_push(script.take(i + 1), script[i + 1]);
}

/// The calls of a link that is in its room are orderly.
pub proof fn lemma_healthy_is_orderly<V: RoomAny>(link: Handler<V>)
    requires
        link.healthy(),
    ensures
        orderly(link.script()),
{
}

/// What a move does to the tables of two shared rooms of one kind. The
/// room that the connection leaves, as its lock held it when it was asked,
/// had the connection among its members and dropped it, and those who
/// stayed kept their order. The target, as its lock held it when it was
/// asked, did not have the connection and put it at the end of its table,
/// with the identity of the request. Where the room that is left refuses,
/// the connection was no member of it or its lock is poisoned; where the
/// target refuses, it had the connection already or its lock is poisoned.
pub proof fn lemma_move_through_rooms<R: RoomHandler>(
    current: Room<R>,
    link: Sender,
    target: Room<R>,
    identity: R::Guest,
    made: int,
    next: ResultRelocation<R::Ticket>,
)
    requires
        Handler::<Room<R>>::moves(current, link, target, identity, made, next),
    ensures
        made == 2 || made == 3 || made == 4,
        made == 2 ==> next is Err && (next->Err_0 is NotMember || next->Err_0 is Poisoned),
        made == 3 ==> next is Err && (next->Err_0 is AlreadyMember || next->Err_0 is Poisoned),
        made >= 3 ==> exists|from: &mut RoomInner<R>|
            {
                &&& #[trigger] from.members.has(key_of(link))
                &&& final(from).members@ == from.members@.remove(
                    from.members.place(key_of(link)),
                )
                &&& !final(from).members.has(key_of(link))
            },
        made == 4 ==> exists|to: &mut RoomInner<R>, copy: Sender|
            {
                &&& key_of(copy) == key_of(link)
                &&& !to.members.has(key_of(link))
                &&& final(to).members@ == #[trigger] to.members@.push((identity, copy))
            },
{
    let (left, dropped) = choose|left: Result<(), HotelError>, dropped: Result<(), HotelError>|
        {
            &&& #[trigger] call_ensures(
                <Room<R> as RoomAny>::on_leave,
                (&current, &link, None::<(u16, &str)>),
                left,
            )
            &&& #[trigger] call_ensures(<Room<R> as RoomAny>::remove, (&current, &link), dropped)
            &&& match dropped {
                Err(e) => made == 2 && next == ResultRelocation::<R::Ticket>::Err(e),
                Ok(()) => Handler::<Room<R>>::lands(link, target, identity, made, next),
            }
        };
    if dropped is Ok {
        let from = choose|from: &mut RoomInner<R>|
            #[trigger] call_ensures(RoomInner::<R>::try_remove, (from, &link), dropped);
        assert(from.members.has(key_of(link)));
        let (copy, taken) = choose|copy: Sender, taken: Result<(), HotelError>|
            {
                &&& key_of(copy) == key_of(link)
                &&& #[trigger] call_ensures(
                    <Room<R> as RoomAny>::add,
                    (&target, copy, identity),
                    taken,
                )
                &&& match taken {
                    Err(e) => made == 3 && next == ResultRelocation::<R::Ticket>::Err(e),
                    Ok(()) => made == 4 && call_ensures(
                        <Room<R> as RoomAny>::on_join,
                        (&target, &link),
                        next,
                    ),
                }
            };
        if taken is Ok {
            let to = choose|to: &mut RoomInner<R>|
                #[trigger] call_ensures(RoomInner::<R>::try_add, (to, copy, identity), taken);
            assert(final(to).members@ == to.members@.push((identity, copy)));
        }
    }
}

/// What the first link of a connection does to the table of a shared
/// lobby: where the link is made, the lobby, as its lock held it when it
/// was asked, did not have the connection and put it at the end of its
/// table, with the identity given. Where no link is made, the lobby had the
/// connection already or its lock is poisoned.
pub proof fn lemma_enter_lobby<R: RoomHandler>(
    sender: Sender,
    lobby: Room<R>,
    identity: R::Guest,
    r: Result<Handler<Room<R>>, HotelError>,
)
    requires
        exists|copy: Sender, answer: Result<(), HotelError>|
            {
                &&& key_of(copy) == key_of(sender)
                &&& #[trigger] call_ensures(
                    <Room<R> as RoomAny>::add,
                    (&lobby, copy, identity),
                    answer,
                )
                &&& Handler::<Room<R>>::entered(sender, lobby, answer, r)
            },
    ensures
        r is Err ==> r->Err_0 is AlreadyMember || r->Err_0 is Poisoned,
        r is Ok ==> exists|to: &mut RoomInner<R>, copy: Sender|
            {
                &&& key_of(copy) == key_of(sender)
                &&& !to.members.has(key_of(sender))
                &&& final(to).members@ == #[trigger] to.members@.push((identity, copy))
            },
{
    let (copy, answer) = choose|copy: Sender, answer: Result<(), HotelError>|
        {
            &&& key_of(copy) == key_of(sender)
            &&& #[trigger] call_ensures(
                <Room<R> as RoomAny>::add,
                (&lobby, copy, identity),
                answer,
            )
            &&& Handler::<Room<R>>::entered(sender, lobby, answer, r)
        };
    if answer is Ok {
        let to = choose|to: &mut RoomInner<R>|
            #[trigger] call_ensures(RoomInner::<R>::try_add, (to, copy, identity), answer);
        assert(final(to).members@ == to.members@.push((identity, copy)));
    }
}

/// The identity that came with a request is what the callbacks of the
/// target read: in a room whose table is that of the target right after it
/// took the connection in, the context that a callback for that connection
/// is handed holds that identity, and the connection is the last member.
pub proof fn lemma_arrival_reads_identity<R: RoomHandler>(
    before: RoomInner<R>,
    room: RoomInner<R>,
    sender: Sender,
    copy: Sender,
    identity: R::Guest,
    handler: R,
    cx: Context<R::Guest>,
)
    requires
        key_of(copy) == key_of(sender),
        !before.members.has(key_of(sender)),
        distinct(before.members.keys()),
        room.members@ == before.members@.push((identity, copy)),
        room.hands(sender, handler, cx),
    ensures
        room.members.has(key_of(sender)),
        room.members.place(key_of(sender)) == room.members@.len() - 1,
        cx.guest() == identity,
        cx.me() == key_of(sender),
{
    let key = key_of(sender);
    lemma_with_key(before.members.keys(), key);
    assert(room.members.keys() =~= before.members.keys().push(key));
}

} // verus!
