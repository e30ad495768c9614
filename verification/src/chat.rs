use vstd::prelude::*;
use crate::azusa::ClientPacket;

verus! {

/// One line of the global chat.
#[derive(Debug, Clone)]
pub struct ChatMessage {
    pub username: String,
    pub content: String,
}

/// A chat message as it travels between server and client.
#[derive(Debug, Clone)]
pub struct ChatMessagePacket(pub ChatMessage);

/// The chat history seen by a client, oldest message first.
pub struct Chat {
    messages: Vec<ChatMessage>,
}

impl View for Chat {
    type V = Seq<ChatMessage>;

    closed spec fn view(&self) -> Seq<ChatMessage> {
        self.messages@
    }
}

impl Chat {
    /// An empty chat.
    pub fn new() -> (r: Self)
        ensures
            r@ == Seq::<ChatMessage>::empty(),
    {
        Chat { messages: Vec::new() }
    }

    /// Appends the message carried by `packet` to the history.
    pub fn handle_packet(&mut self, packet: ChatMessagePacket)
        ensures
            final(self)@ == old(self)@.push(packet.0),
    {
        self.messages.push(packet.0);
    }

    /// All messages received so far, oldest first.
    pub fn messages(&self) -> (r: &[ChatMessage])
        ensures
            r@ == self@,
    {
        self.messages.as_slice()
    }
}

/// How a chat message is shown: the sender's name, a colon and a space, then the text.
pub fn message_line(m: &ChatMessage) -> (r: String)
    ensures
        r@ == m.username@ + ": "@ + m.content@,
{
    let mut line = m.username.clone();
    line.append(": ");
    line.append(m.content.as_str());
    line
}

/// The chat overlay: the line the player is typing.
pub struct ChatOverlay {
    pub text_buffer: String,
}

impl ChatOverlay {
    /// An overlay with nothing typed yet.
    pub fn new() -> (r: Self)
        ensures
            r.text_buffer@ == Seq::<char>::empty(),
    {
        ChatOverlay { text_buffer: String::new() }
    }

    /// Takes a frame's input: the typed characters are appended to the line; when Enter
    /// was pressed the line is sent as a chat message and cleared.
    pub fn update(&mut self, typed: &Vec<char>, enter: bool) -> (r: Option<ClientPacket>)
        ensures
            enter ==> final(self).text_buffer@ == Seq::<char>::empty() && (r matches Some(
                ClientPacket::Chat(s),
            ) && s@ == old(self).text_buffer@ + typed@),
            !enter ==> final(self).text_buffer@ == old(self).text_buffer@ + typed@ && r is None,
    {
        let ghost start = self.text_buffer@;
        let mut i: usize = 0;
        while i < typed.len()
            invariant
                i <= typed@.len(),
                self.text_buffer@ == start + typed@.subrange(0, i as int),
            decreases typed@.len() - i,
        {
            self.text_buffer.push(typed[i]);
            i = i + 1;
            assert(self.text_buffer@ =~= start + typed@.subrange(0, i as int));
        }
        assert(typed@.subrange(0, typed@.len() as int) =~= typed@);
        if enter {
            let message = self.text_buffer.clone();
            self.text_buffer = String::new();
            Some(ClientPacket::Chat(message))
        } else {
            None
        }
    }
}

} // verus!
