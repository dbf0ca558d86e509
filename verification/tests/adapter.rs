use std::cell::RefCell;
use std::rc::Rc;
use ws_hotel::{
    Context, Handler, HotelError, Message, Relocation, ResultRelocation, Room, RoomHandler,
};

type Log = Rc<RefCell<Vec<String>>>;

fn client(token: usize, id: u32) -> (ws::Sender, Box<dyn FnMut() -> Vec<String>>) {
    let (tx, rx) = mio::channel::sync_channel(64);
    let sender = ws::Sender::new(mio::Token(token), tx, id);
    let inbox = move || {
        let mut got = Vec::new();
        while let Ok(command) = rx.try_recv() {
            got.push(format!("{:?}", command.into_signal()));
        }
        got
    };
    (sender, Box::new(inbox))
}

/// A room that writes every callback into a log shared by all rooms, sends
/// arrivals on to `onward` where it has one, and moves a member that says
/// "go" to `exit`.
struct Hall {
    name: &'static str,
    log: Log,
    onward: Option<Room<Hall>>,
    exit: Option<Room<Hall>>,
    fail_on_join: bool,
}

impl RoomHandler for Hall {
    type Guest = u32;
    type Ticket = Relocation<Hall>;

    fn on_join(&mut self, mut cx: Context<u32>) -> ResultRelocation<Relocation<Hall>> {
        let id = *cx.identity();
        self.log.borrow_mut().push(format!("{} join {}", self.name, id));
        if self.fail_on_join {
            return Err(HotelError::WrongGuest);
        }
        match &self.onward {
            Some(next) => Ok(Some(Relocation::new(next, id + 1))),
            None => Ok(None),
        }
    }

    fn on_message(&mut self, mut cx: Context<u32>, msg: Message) -> ResultRelocation<Relocation<Hall>> {
        let id = *cx.identity();
        let words = msg.as_text().unwrap_or_default().to_string();
        self.log.borrow_mut().push(format!("{} message {} {}", self.name, id, words));
        if words == "go" {
            if let Some(exit) = &self.exit {
                return Ok(Some(Relocation::new(exit, id + 100)));
            }
        }
        Ok(None)
    }

    fn on_leave(&mut self, mut cx: Context<u32>, reason: Option<(u16, &str)>) {
        let id = *cx.identity();
        self.log.borrow_mut().push(format!("{} leave {} {:?}", self.name, id, reason));
    }
}

fn hall(name: &'static str, log: &Log) -> Room<Hall> {
    Room::new(Hall { name, log: log.clone(), onward: None, exit: None, fail_on_join: false })
}

fn say(link: &mut Handler<Room<Hall>>, msg: &str) -> Result<usize, HotelError> {
    let mut hops = 0;
    let mut pending = link.on_message(Message::text(msg))?;
    while let Some(ticket) = pending {
        pending = link.relocate(Some((ticket.room, ticket.identity)))?;
        hops += 1;
    }
    Ok(hops)
}

fn lines(log: &Log) -> Vec<String> {
    log.borrow_mut().drain(..).collect()
}

#[test]
fn entering_the_lobby_makes_no_callback() {
    let log = Log::default();
    let lobby = hall("lobby", &log);
    let (a, mut inbox) = client(1, 1);
    let link = Handler::enter(a.clone(), lobby.share(), 0).ok().unwrap();
    assert!(lines(&log).is_empty());
    assert!(inbox().is_empty());
    assert_eq!(lobby.len().ok(), Some(1));
    assert!(link.room().same(&lobby));
    assert_eq!(link.sender().token(), a.token());
    assert_eq!(link.sender().connection_id(), a.connection_id());
    assert!(matches!(Handler::enter(a, lobby.share(), 0), Err(HotelError::AlreadyMember)));
    assert_eq!(lobby.len().ok(), Some(1));
}

#[test]
fn no_request_no_move() {
    let log = Log::default();
    let lobby = hall("lobby", &log);
    let (a, _inbox) = client(1, 1);
    let mut link = Handler::enter(a, lobby.share(), 0).ok().unwrap();
    assert!(matches!(link.relocate(None), Ok(None)));
    assert!(link.room().same(&lobby));
    assert!(lines(&log).is_empty());
    assert_eq!(say(&mut link, "stay").ok(), Some(0));
    assert_eq!(lines(&log), vec![String::from("lobby message 0 stay")]);
    assert_eq!(lobby.len().ok(), Some(1));
}

#[test]
fn one_frame_can_start_a_chain_of_moves() {
    let log = Log::default();
    let lobby = hall("lobby", &log);
    let first = hall("first", &log);
    let second = hall("second", &log);
    let third = hall("third", &log);
    lobby.with(|h: &mut Hall| h.exit = Some(first.share())).ok().unwrap();
    first.with(|h: &mut Hall| h.onward = Some(second.share())).ok().unwrap();
    second.with(|h: &mut Hall| h.onward = Some(third.share())).ok().unwrap();
    let (a, _inbox) = client(1, 1);
    let mut link = Handler::enter(a, lobby.share(), 0).ok().unwrap();
    assert_eq!(say(&mut link, "go").ok(), Some(3));
    assert_eq!(
        lines(&log),
        vec![
            String::from("lobby message 0 go"),
            String::from("lobby leave 0 None"),
            String::from("first join 100"),
            String::from("first leave 100 None"),
            String::from("second join 101"),
            String::from("second leave 101 None"),
            String::from("third join 102"),
        ]
    );
    assert!(link.room().same(&third));
    assert_eq!(lobby.len().ok(), Some(0));
    assert_eq!(first.len().ok(), Some(0));
    assert_eq!(second.len().ok(), Some(0));
    assert_eq!(third.len().ok(), Some(1));
    assert_eq!(say(&mut link, "hello").ok(), Some(0));
    assert_eq!(lines(&log), vec![String::from("third message 102 hello")]);
}

#[test]
fn a_move_into_the_same_room_leaves_and_joins() {
    let log = Log::default();
    let lobby = hall("lobby", &log);
    lobby.with(|h: &mut Hall| h.exit = Some(lobby.share())).ok().unwrap();
    let (a, _a_inbox) = client(1, 1);
    let (b, _b_inbox) = client(2, 2);
    let mut a_link = Handler::enter(a, lobby.share(), 1).ok().unwrap();
    let mut b_link = Handler::enter(b, lobby.share(), 2).ok().unwrap();
    assert_eq!(say(&mut a_link, "go").ok(), Some(1));
    assert_eq!(
        lines(&log),
        vec![
            String::from("lobby message 1 go"),
            String::from("lobby leave 1 None"),
            String::from("lobby join 101"),
        ]
    );
    assert!(a_link.room().same(&lobby));
    assert_eq!(lobby.len().ok(), Some(2));
    assert_eq!(say(&mut b_link, "x").ok(), Some(0));
    assert_eq!(say(&mut a_link, "x").ok(), Some(0));
    assert_eq!(
        lines(&log),
        vec![String::from("lobby message 2 x"), String::from("lobby message 101 x")]
    );
    lobby.with(|h: &mut Hall| h.exit = None).ok().unwrap();
}

#[test]
fn join_comes_before_messages_and_leave_after_them() {
    let log = Log::default();
    let lobby = hall("lobby", &log);
    let room = hall("room", &log);
    lobby.with(|h: &mut Hall| h.exit = Some(room.share())).ok().unwrap();
    let (a, _inbox) = client(1, 1);
    let mut link = Handler::enter(a, lobby.share(), 0).ok().unwrap();
    assert_eq!(say(&mut link, "one").ok(), Some(0));
    assert_eq!(say(&mut link, "go").ok(), Some(1));
    assert_eq!(say(&mut link, "two").ok(), Some(0));
    assert_eq!(say(&mut link, "three").ok(), Some(0));
    assert!(link.on_close(1001, "gone").is_ok());
    assert_eq!(
        lines(&log),
        vec![
            String::from("lobby message 0 one"),
            String::from("lobby message 0 go"),
            String::from("lobby leave 0 None"),
            String::from("room join 100"),
            String::from("room message 100 two"),
            String::from("room message 100 three"),
            String::from("room leave 100 Some((1001, \"gone\"))"),
        ]
    );
    assert_eq!(room.len().ok(), Some(0));
    assert_eq!(lobby.len().ok(), Some(0));
}

#[test]
fn a_failed_arrival_leaves_the_member_in_the_target() {
    let log = Log::default();
    let lobby = hall("lobby", &log);
    let room = hall("room", &log);
    lobby.with(|h: &mut Hall| h.exit = Some(room.share())).ok().unwrap();
    room.with(|h: &mut Hall| h.fail_on_join = true).ok().unwrap();
    let (a, _inbox) = client(1, 1);
    let mut link = Handler::enter(a, lobby.share(), 0).ok().unwrap();
    assert!(matches!(say(&mut link, "go"), Err(HotelError::WrongGuest)));
    assert!(link.room().same(&room));
    assert_eq!(lobby.len().ok(), Some(0));
    assert_eq!(room.len().ok(), Some(1));
}

#[test]
fn a_member_that_is_gone_cannot_be_moved() {
    let log = Log::default();
    let lobby = hall("lobby", &log);
    let room = hall("room", &log);
    let (a, _inbox) = client(1, 1);
    let mut link = Handler::enter(a.clone(), lobby.share(), 0).ok().unwrap();
    assert!(lobby.remove(&a).is_ok());
    let r = link.relocate(Some((room.share(), 5)));
    assert!(matches!(r, Err(HotelError::NotMember)));
    assert!(link.room().same(&lobby));
    assert_eq!(room.len().ok(), Some(0));
    assert!(lines(&log).is_empty());
    assert!(matches!(link.on_close(1000, ""), Err(HotelError::NotMember)));
}

#[test]
fn a_target_that_holds_the_member_refuses_it() {
    let log = Log::default();
    let lobby = hall("lobby", &log);
    let room = hall("room", &log);
    let (a, _inbox) = client(1, 1);
    let mut link = Handler::enter(a.clone(), lobby.share(), 0).ok().unwrap();
    assert!(room.add(a.clone(), 9).is_ok());
    let r = link.relocate(Some((room.share(), 5)));
    assert!(matches!(r, Err(HotelError::AlreadyMember)));
    assert!(link.room().same(&room));
    assert_eq!(lobby.len().ok(), Some(0));
    assert_eq!(room.len().ok(), Some(1));
    assert_eq!(lines(&log), vec![String::from("lobby leave 0 None")]);
}
