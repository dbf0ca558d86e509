use std::collections::HashMap;
use ws_hotel::{
    Context, Handler, HotelError, Message, Relocation, ResultRelocation, Room, RoomAny,
    RoomHandler, RoomWeak,
};

fn client(token: usize, id: u32) -> (ws::Sender, Box<dyn FnMut() -> Vec<String>>) {
    let (tx, rx) = mio::channel::sync_channel(64);
    let sender = ws::Sender::new(mio::Token(token), tx, id);
    let inbox = move || {
        let mut got = Vec::new();
        while let Ok(command) = rx.try_recv() {
            got.push(format!("{:?}", command.into_signal()));
        }
        got
    };
    (sender, Box::new(inbox))
}

fn text(s: &str) -> String {
    format!("Message(Text({:?}))", s)
}

enum Move {
    ToChat(Relocation<ChatRoom>),
    ToLobby(Relocation<Lobby>),
}

enum AnyGuest {
    Lobby(Option<String>),
    Chat(String),
}

enum AnyRoom {
    Lobby(Room<Lobby>),
    Chat(Room<ChatRoom>),
}

fn open(ticket: Move) -> (AnyRoom, AnyGuest) {
    match ticket {
        Move::ToChat(r) => (AnyRoom::Chat(r.room), AnyGuest::Chat(r.identity)),
        Move::ToLobby(r) => (AnyRoom::Lobby(r.room), AnyGuest::Lobby(r.identity)),
    }
}

impl RoomAny for AnyRoom {
    type Erased = AnyGuest;
    type Ticket = Move;

    fn on_join(&self, sender: &ws::Sender) -> ResultRelocation<Move> {
        match self {
            AnyRoom::Lobby(room) => room.on_join(sender),
            AnyRoom::Chat(room) => room.on_join(sender),
        }
    }

    fn on_message(&self, sender: &ws::Sender, msg: Message) -> ResultRelocation<Move> {
        match self {
            AnyRoom::Lobby(room) => room.on_message(sender, msg),
            AnyRoom::Chat(room) => room.on_message(sender, msg),
        }
    }

    fn on_leave(&self, sender: &ws::Sender, reason: Option<(u16, &str)>) -> Result<(), HotelError> {
        match self {
            AnyRoom::Lobby(room) => room.on_leave(sender, reason),
            AnyRoom::Chat(room) => room.on_leave(sender, reason),
        }
    }

    fn broadcast(&self, msg: Message) -> Result<(), HotelError> {
        match self {
            AnyRoom::Lobby(room) => room.broadcast(msg),
            AnyRoom::Chat(room) => room.broadcast(msg),
        }
    }

    fn add(&self, sender: ws::Sender, identity: AnyGuest) -> Result<(), HotelError> {
        match (self, identity) {
            (AnyRoom::Lobby(room), AnyGuest::Lobby(name)) => room.add(sender, name),
            (AnyRoom::Chat(room), AnyGuest::Chat(name)) => room.add(sender, name),
            _ => Err(HotelError::WrongGuest),
        }
    }

    fn remove(&self, sender: &ws::Sender) -> Result<(), HotelError> {
        match self {
            AnyRoom::Lobby(room) => room.remove(sender),
            AnyRoom::Chat(room) => room.remove(sender),
        }
    }
}

struct Lobby {
    me: Option<RoomWeak<Lobby>>,
    rooms: HashMap<String, RoomWeak<ChatRoom>>,
}

impl Lobby {
    fn find_or_create_room(&mut self, name: &str) -> Room<ChatRoom> {
        if let Some(weak) = self.rooms.get(name) {
            if let Some(strong) = weak.upgrade() {
                return strong;
            }
        }
        let lobby = self.me.as_ref().expect("the lobby knows itself").share();
        let room = Room::new(ChatRoom { lobby, log: Vec::new() });
        self.rooms.insert(String::from(name), room.downgrade());
        room
    }
}

impl RoomHandler for Lobby {
    type Guest = Option<String>;
    type Ticket = Move;

    fn on_message(&mut self, mut cx: Context<Option<String>>, msg: Message) -> ResultRelocation<Move> {
        let msg = msg.as_text().unwrap_or_default().to_string();
        if cx.identity().is_none() {
            if let Some(name) = msg.strip_prefix("/nick ") {
                *cx.identity() = Some(name.into());
            } else {
                cx.send(Message::text("You haven't chosen a name yet"))?;
            }
            return Ok(None);
        }
        if let Some(room) = msg.strip_prefix("/join ") {
            if let Some(name) = cx.identity().take() {
                let room = self.find_or_create_room(room);
                return Ok(Some(Move::ToChat(Relocation::new(&room, name))));
            }
        } else {
            cx.send(Message::text("Type `/join <room>` to join a chat room."))?;
        }
        Ok(None)
    }
}

struct ChatRoom {
    lobby: RoomWeak<Lobby>,
    log: Vec<String>,
}

impl RoomHandler for ChatRoom {
    type Guest = String;
    type Ticket = Move;

    fn on_join(&mut self, mut cx: Context<String>) -> ResultRelocation<Move> {
        let message = format!("[SERVER]: {} entered the room", cx.identity().as_str());
        cx.broadcast(Message::text(&message))?;
        Ok(None)
    }

    fn on_message(&mut self, mut cx: Context<String>, msg: Message) -> ResultRelocation<Move> {
        let msg = msg.as_text().unwrap_or_default().to_string();
        if msg == "/leave" {
            let name = Some(cx.identity().clone());
            let lobby = self.lobby.upgrade().expect("lobby was dropped");
            return Ok(Some(Move::ToLobby(Relocation::new(&lobby, name))));
        }
        let message = format!("{}: {}", cx.identity().as_str(), msg);
        cx.broadcast(Message::text(&message))?;
        self.log.push(message);
        Ok(None)
    }

    fn on_leave(&mut self, mut cx: Context<String>, reason: Option<(u16, &str)>) {
        let message = format!(
            "[SERVER]: {} left the room (reason: {:?})",
            cx.identity().as_str(),
            reason,
        );
        cx.broadcast(Message::text(&message)).ok().unwrap();
    }
}

fn hotel() -> Room<Lobby> {
    let lobby = Room::new(Lobby { me: None, rooms: HashMap::new() });
    let weak = lobby.downgrade();
    lobby.with(move |h: &mut Lobby| h.me = Some(weak)).ok().unwrap();
    lobby
}

fn connect(lobby: &Room<Lobby>, sender: &ws::Sender) -> Handler<AnyRoom> {
    Handler::enter(sender.clone(), AnyRoom::Lobby(lobby.share()), AnyGuest::Lobby(None))
        .ok()
        .unwrap()
}

fn say(link: &mut Handler<AnyRoom>, msg: &str) -> Result<usize, HotelError> {
    let mut hops = 0;
    let mut pending = link.on_message(Message::text(msg))?;
    while let Some(ticket) = pending {
        pending = link.relocate(Some(open(ticket)))?;
        hops += 1;
    }
    Ok(hops)
}

fn lounge_of(lobby: &Room<Lobby>) -> Option<Room<ChatRoom>> {
    lobby
        .with(|h: &mut Lobby| h.rooms.get("lounge").and_then(|weak| weak.upgrade()))
        .ok()
        .unwrap()
}

fn two_in_lounge(
    lobby: &Room<Lobby>,
) -> (
    Handler<AnyRoom>,
    Box<dyn FnMut() -> Vec<String>>,
    Handler<AnyRoom>,
    Box<dyn FnMut() -> Vec<String>>,
) {
    let (a, mut a_inbox) = client(1, 10);
    let (b, mut b_inbox) = client(2, 20);
    let mut a_link = connect(lobby, &a);
    let mut b_link = connect(lobby, &b);
    assert_eq!(say(&mut a_link, "/nick alice").ok(), Some(0));
    assert_eq!(say(&mut a_link, "/join lounge").ok(), Some(1));
    assert_eq!(say(&mut b_link, "/nick bob").ok(), Some(0));
    assert_eq!(say(&mut b_link, "/join lounge").ok(), Some(1));
    assert_eq!(
        a_inbox(),
        vec![text("[SERVER]: alice entered the room"), text("[SERVER]: bob entered the room")]
    );
    assert_eq!(b_inbox(), vec![text("[SERVER]: bob entered the room")]);
    (a_link, a_inbox, b_link, b_inbox)
}

#[test]
fn nick_then_join() {
    let lobby = hotel();
    let (a, mut a_inbox) = client(1, 10);
    let mut link = connect(&lobby, &a);
    assert!(a_inbox().is_empty());
    assert_eq!(say(&mut link, "hello").ok(), Some(0));
    assert_eq!(a_inbox(), vec![text("You haven't chosen a name yet")]);
    assert_eq!(say(&mut link, "/nick alice").ok(), Some(0));
    assert!(a_inbox().is_empty());
    assert!(matches!(link.room(), AnyRoom::Lobby(_)));
    assert_eq!(say(&mut link, "/join lounge").ok(), Some(1));
    assert_eq!(a_inbox(), vec![text("[SERVER]: alice entered the room")]);
    assert!(matches!(link.room(), AnyRoom::Chat(_)));
    assert_eq!(lobby.len().ok(), Some(0));
    assert_eq!(lounge_of(&lobby).unwrap().len().ok(), Some(1));
}

#[test]
fn two_client_chat() {
    let lobby = hotel();
    let (mut a_link, mut a_inbox, mut b_link, mut b_inbox) = two_in_lounge(&lobby);
    assert_eq!(say(&mut a_link, "hi").ok(), Some(0));
    assert_eq!(a_inbox(), vec![text("alice: hi")]);
    assert_eq!(b_inbox(), vec![text("alice: hi")]);
    assert_eq!(say(&mut b_link, "yo").ok(), Some(0));
    assert_eq!(a_inbox(), vec![text("bob: yo")]);
    assert_eq!(b_inbox(), vec![text("bob: yo")]);
    let lounge = lounge_of(&lobby).unwrap();
    let log = lounge.with(|h: &mut ChatRoom| h.log.clone()).ok().unwrap();
    assert_eq!(log, vec![String::from("alice: hi"), String::from("bob: yo")]);
}

#[test]
fn leave_via_command() {
    let lobby = hotel();
    let (mut a_link, mut a_inbox, _b_link, mut b_inbox) = two_in_lounge(&lobby);
    assert_eq!(say(&mut a_link, "/leave").ok(), Some(1));
    assert_eq!(b_inbox(), vec![text("[SERVER]: alice left the room (reason: None)")]);
    assert_eq!(a_inbox(), vec![text("[SERVER]: alice left the room (reason: None)")]);
    assert!(matches!(a_link.room(), AnyRoom::Lobby(_)));
    assert_eq!(lobby.len().ok(), Some(1));
    assert_eq!(lounge_of(&lobby).unwrap().len().ok(), Some(1));
    assert_eq!(say(&mut a_link, "anything").ok(), Some(0));
    assert_eq!(a_inbox(), vec![text("Type `/join <room>` to join a chat room.")]);
    assert!(b_inbox().is_empty());
}

#[test]
fn disconnect() {
    let lobby = hotel();
    let (mut a_link, _a_inbox, _b_link, mut b_inbox) = two_in_lounge(&lobby);
    assert!(a_link.on_close(1006, "").is_ok());
    assert_eq!(
        b_inbox(),
        vec![text("[SERVER]: alice left the room (reason: Some((1006, \"\")))")]
    );
    assert_eq!(lounge_of(&lobby).unwrap().len().ok(), Some(1));
}

#[test]
fn empty_room_gc() {
    let lobby = hotel();
    let (mut a_link, _a_inbox, mut b_link, _b_inbox) = two_in_lounge(&lobby);
    assert_eq!(say(&mut a_link, "/leave").ok(), Some(1));
    assert!(lounge_of(&lobby).is_some());
    assert!(b_link.on_close(1006, "").is_ok());
    assert!(lounge_of(&lobby).is_some());
    drop(b_link);
    assert!(lounge_of(&lobby).is_none());
    assert_eq!(say(&mut a_link, "/join lounge").ok(), Some(1));
    assert_eq!(lounge_of(&lobby).unwrap().len().ok(), Some(1));
}

#[test]
fn upgraded_room_is_the_room() {
    let lobby = hotel();
    let weak = lobby.downgrade();
    let again = weak.upgrade().unwrap();
    assert!(again.same(&lobby));
    assert!(again == lobby);
    assert!(lobby.share().same(&lobby));
    assert!(lobby.share() == lobby);
    let other = hotel();
    assert!(!other.same(&lobby));
    assert!(other != lobby);
    assert!(other == other.share());
    let weak_other = other.downgrade();
    let weak_copy = weak_other.share();
    drop(other);
    assert!(weak_other.upgrade().is_none());
    assert!(weak_copy.upgrade().is_none());
    assert!(weak.upgrade().is_some());
}

#[test]
fn a_room_refuses_the_identity_of_another_kind() {
    let lobby = hotel();
    let (a, _a_inbox) = client(1, 10);
    let view = AnyRoom::Lobby(lobby.share());
    let r = view.add(a.clone(), AnyGuest::Chat(String::from("alice")));
    assert!(matches!(r, Err(HotelError::WrongGuest)));
    assert_eq!(lobby.len().ok(), Some(0));
    let r = Handler::enter(a, AnyRoom::Lobby(lobby.share()), AnyGuest::Chat(String::new()));
    assert!(matches!(r, Err(HotelError::WrongGuest)));
}
