use vstd::prelude::*;

verus! {

/// State of the connection to the game server.
#[derive(Debug, Clone, Copy, PartialEq, Eq, Structural)]
pub enum ConnectionStatus {
    Connected,
    Connecting,
    Error,
    Disconnected,
}

/// What the game needs from a web socket; implemented once for native builds and once
/// for the browser.
pub trait WebSocketInterface: Sized {
    /// Starts connecting to `addr`.
    fn connect(addr: String) -> Self;

    /// Sends what was queued and returns every message received since the last poll.
    fn poll(&mut self) -> Result<Vec<Vec<u8>>, String>;

    /// Queues `data` to be sent once connected.
    fn send(&self, data: Vec<u8>);

    /// The current connection state.
    fn status(&self) -> ConnectionStatus;
}

/// Something that happened on a native socket, with the text of errors already
/// rendered.
#[derive(Debug, Clone)]
pub enum SocketEvent {
    /// The socket connected.
    Connected,
    /// A message arrived.
    Message(Vec<u8>),
    /// The socket failed.
    Error(String),
    /// The socket was closed, with the close code as text and the reason.
    Close { code: String, reason: String },
}

/// The connection status of a socket that has (or has not) a live sender and is (or is
/// not) still connecting.
pub open spec fn status_spec(has_sender: bool, connecting: bool) -> ConnectionStatus {
    if has_sender {
        ConnectionStatus::Connected
    } else if connecting {
        ConnectionStatus::Connecting
    } else {
        ConnectionStatus::Disconnected
    }
}

/// The connection status of a socket that has (or has not) a live sender and is (or is
/// not) still connecting.
pub fn socket_status(has_sender: bool, connecting: bool) -> (r: ConnectionStatus)
    ensures
        r == status_spec(has_sender, connecting),
{
    if has_sender {
        ConnectionStatus::Connected
    } else if connecting {
        ConnectionStatus::Connecting
    } else {
        ConnectionStatus::Disconnected
    }
}

/// The bookkeeping of a native socket: whether it has a live sender and whether it is
/// still connecting.
#[derive(Debug, Clone, Copy, PartialEq, Eq, Structural)]
pub struct SocketState {
    pub has_sender: bool,
    pub connecting: bool,
}

/// The outcome of the first `n` events of a poll: the state, the messages received, and
/// the error text once an error or a close stopped the poll.
pub open spec fn fold_events(
    state: SocketState,
    events: Seq<SocketEvent>,
    n: nat,
) -> (SocketState, Seq<Seq<u8>>, Option<Seq<char>>)
    decreases n,
{
    if n == 0 {
        (state, Seq::empty(), None)
    } else {
        let (s, msgs, err) = fold_events(state, events, (n - 1) as nat);
        if err is Some {
            (s, msgs, err)
        } else {
            let s1 = SocketState { has_sender: s.has_sender, connecting: false };
            match events[n - 1] {
                SocketEvent::Connected => (SocketState { has_sender: true, connecting: false }, msgs, None),
                SocketEvent::Message(data) => (s1, msgs.push(data@), None),
                SocketEvent::Error(e) => (s1, msgs, Some("Web Socket Error: "@ + e@)),
                SocketEvent::Close { code, reason } => (
                    SocketState { has_sender: false, connecting: false },
                    msgs,
                    Some("Web Socket Closed with code "@ + code@ + ". Reason: "@ + reason@),
                ),
            }
        }
    }
}

proof fn lemma_fold_stops(state: SocketState, events: Seq<SocketEvent>, k: nat, n: nat)
    requires
        k <= n,
        fold_events(state, events, k).2 is Some,
    ensures
        fold_events(state, events, n) == fold_events(state, events, k),
    decreases n - k,
{
    if k < n {
        lemma_fold_stops(state, events, k, (n - 1) as nat);
    }
}

impl SocketState {
    /// Goes through the events received since the last poll, in order: any event ends the
    /// connecting phase; a connection gives the socket its sender; messages are collected;
    /// an error, or a close (which drops the sender), stops the poll with its text.
    /// Returns the collected messages, or the error text.
    pub fn handle_events(&mut self, events: Vec<SocketEvent>) -> (r: Result<Vec<Vec<u8>>, String>)
        ensures
            ({
                let (s, msgs, err) = fold_events(*old(self), events@, events@.len());
                &&& *final(self) == s
                &&& match r {
                    Ok(v) => err is None && v@.map_values(|d: Vec<u8>| d@) == msgs,
                    Err(e) => err == Some(e@),
                }
            }),
    {
        let ghost start = *self;
        let mut out: Vec<Vec<u8>> = Vec::new();
        let mut pending = events;
        let ghost all = pending@;
        let n = pending.len();
        let mut i: usize = 0;
        while pending.len() > 0
            invariant
                i + pending@.len() == all.len(),
                all.len() == n,
                pending@ == all.subrange(i as int, all.len() as int),
                all == events@,
                start == *old(self),
                fold_events(start, all, i as nat) == (
                    *self,
                    out@.map_values(|d: Vec<u8>| d@),
                    None::<Seq<char>>,
                ),
            decreases pending@.len(),
        {
            let ev = pending.remove(0);
            assert(ev == all[i as int]);
            self.connecting = false;
            match ev {
                SocketEvent::Connected => {
                    self.has_sender = true;
                },
                SocketEvent::Message(data) => {
                    let ghost before = out@;
                    out.push(data);
                    assert(out@.map_values(|d: Vec<u8>| d@) =~= before.map_values(
                        |d: Vec<u8>| d@,
                    ).push(all[i as int]->Message_0@));
                },
                SocketEvent::Error(e) => {
                    let mut text = "Web Socket Error: ".to_owned();
                    text.append(e.as_str());
                    proof {
                        lemma_fold_stops(start, all, (i + 1) as nat, all.len());
                    }
                    return Err(text);
                },
                SocketEvent::Close { code, reason } => {
                    self.has_sender = false;
                    let mut text = "Web Socket Closed with code ".to_owned();
                    text.append(code.as_str());
                    text.append(". Reason: ");
                    text.append(reason.as_str());
                    proof {
                        lemma_fold_stops(start, all, (i + 1) as nat, all.len());
                    }
                    return Err(text);
                },
            }
            i = i + 1;
            assert(pending@ =~= all.subrange(i as int, all.len() as int));
        }
        Ok(out)
    }
}

/// A socket with a live sender is connected whatever its connecting flag; one without a
/// sender is connecting while it waits for its first event, and disconnected otherwise.
pub proof fn lemma_sender_means_connected(has_sender: bool, connecting: bool)
    ensures
        has_sender ==> status_spec(has_sender, connecting) == ConnectionStatus::Connected,
        !has_sender ==> status_spec(has_sender, connecting) != ConnectionStatus::Connected,
        !has_sender && connecting ==> status_spec(has_sender, connecting)
            == ConnectionStatus::Connecting,
        !has_sender && !connecting ==> status_spec(has_sender, connecting)
            == ConnectionStatus::Disconnected,
{
}

/// Once a poll reaches a `Connected` event without having stopped, the socket has its
/// sender, is no longer connecting, and its status is `Connected`.
pub proof fn lemma_connected_event_connects(state: SocketState, events: Seq<SocketEvent>, n: nat)
    requires
        0 < n <= events.len(),
        events[n - 1] is Connected,
        fold_events(state, events, (n - 1) as nat).2 is None,
    ensures
        fold_events(state, events, n).0 == (SocketState { has_sender: true, connecting: false }),
        fold_events(state, events, n).2 is None,
        status_spec(fold_events(state, events, n).0.has_sender, fold_events(state, events, n).0.connecting)
            == ConnectionStatus::Connected,
{
}

} // verus!
