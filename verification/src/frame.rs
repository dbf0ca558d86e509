//! Frames exchanged with a connected client.

use vstd::prelude::*;

verus! {

/// A frame travelling over a connection: either UTF-8 text or raw bytes.
pub enum Message {
    Text(String),
    Binary(Vec<u8>),
}

/// The mathematical content of a [`Message`].
pub enum MessageView {
    Text(Seq<char>),
    Binary(Seq<u8>),
}

impl View for Message {
    type V = MessageView;

    open spec fn view(&self) -> MessageView {
        match self {
            Message::Text(t) => MessageView::Text(t@),
            Message::Binary(b) => MessageView::Binary(b@),
        }
    }
}

impl Message {
    /// Builds a text frame holding a copy of `text`.
    pub fn text(text: &str) -> (m: Message)
        ensures
            m@ == MessageView::Text(text@),
    {
        Message::Text(text.to_string())
    }

    /// Builds a binary frame that owns `data`.
    pub fn binary(data: Vec<u8>) -> (m: Message)
        ensures
            m@ == MessageView::Binary(data@),
    {
        Message::Binary(data)
    }

    /// The text of a text frame; a binary frame has none.
    pub fn as_text(&self) -> (r: Option<&str>)
        ensures
            match r {
                Some(t) => self@ == MessageView::Text(t@),
                None => self@ is Binary,
            },
    {
        match self {
            Message::Text(t) => Some(t.as_str()),
            Message::Binary(_) => None,
        }
    }
}

} // verus!
