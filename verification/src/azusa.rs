use vstd::prelude::*;
use crate::chat::{Chat, ChatMessagePacket};
use crate::rulesets::catch::CatchScore;
use crate::web_socket::ConnectionStatus;

verus! {

/// The `Uuid` type of the `uuid` crate, carried through unopened as a login token.
#[verifier::external_type_specification]
#[verifier::external_body]
pub struct ExUuid(uuid::Uuid);

/// Packet sent from the game server (Azusa) to the game client.
#[derive(Debug)]
pub enum ServerPacket {
    /// Answer to [`ClientPacket::Ping`].
    Pong,
    /// Answer to [`ClientPacket::Echo`], with the same text.
    Echo(String),
    /// A message of the global chat.
    Chat(ChatMessagePacket),
    /// The client is connected and logged in.
    Connected { version: String },
    /// Answer to [`ClientPacket::RequestLeaderboard`].
    Leaderboard { diff_id: u32, scores: Vec<CatchScore> },
}

/// Packet sent from the game client to the game server.
#[derive(Debug)]
pub enum ClientPacket {
    /// Checks that the server is still there.
    Ping,
    /// Asks the server to send the same text back.
    Echo(String),
    /// A message for the global chat.
    Chat(String),
    /// Logs in with a token obtained from the web API.
    Login(uuid::Uuid),
    /// Submits a score to the leaderboard.
    Submit(CatchScore),
    /// Asks for the leaderboard of a difficulty.
    RequestLeaderboard(u32),
    /// The client is quitting.
    Goodbye,
}

/// The client's side of the session with the game server: whether it is connected and
/// whether a login is under way.
pub struct Azusa {
    connected: bool,
    logging_in: bool,
    token: uuid::Uuid,
}

/// The session state after a receive round that saw `status`, and whether that round
/// sends a login: `(connected, logging_in, sends_login)`.
pub open spec fn receive_outcome(connected: bool, logging_in: bool, status: ConnectionStatus) -> (
    bool,
    bool,
    bool,
) {
    if status != ConnectionStatus::Connected && connected {
        (false, false, false)
    } else if status == ConnectionStatus::Connected && !connected && !logging_in {
        (connected, true, true)
    } else {
        (connected, logging_in, false)
    }
}

impl Azusa {
    /// Whether the session counts as connected.
    pub closed spec fn is_connected(&self) -> bool {
        self.connected
    }

    /// Whether a login was sent and not yet answered.
    pub closed spec fn is_logging_in(&self) -> bool {
        self.logging_in
    }

    /// The token the session logs in with.
    pub closed spec fn login_token(&self) -> uuid::Uuid {
        self.token
    }

    /// A session that is not connected yet and will log in with `token`.
    pub fn new(token: uuid::Uuid) -> (r: Self)
        ensures
            !r.is_connected(),
            !r.is_logging_in(),
            r.login_token() == token,
    {
        Azusa { connected: false, logging_in: false, token }
    }

    /// Starts a receive round given the socket's `status`: a session that lost its socket
    /// is no longer connected, and a socket that just connected gets one login packet,
    /// which is returned for sending.
    pub fn receive(&mut self, status: ConnectionStatus) -> (r: Option<ClientPacket>)
        ensures
            ({
                let (c, l, s) = receive_outcome(
                    old(self).is_connected(),
                    old(self).is_logging_in(),
                    status,
                );
                &&& final(self).is_connected() == c
                &&& final(self).is_logging_in() == l
                &&& s ==> r == Some(ClientPacket::Login(old(self).login_token()))
                &&& !s ==> r is None
            }),
            final(self).login_token() == old(self).login_token(),
    {
        if status != ConnectionStatus::Connected && self.connected {
            self.set_connected(false);
        }
        if status == ConnectionStatus::Connected && !self.connected && !self.logging_in {
            self.logging_in = true;
            return Some(ClientPacket::Login(self.token));
        }
        None
    }

    /// Records whether the session is connected; either way no login is under way
    /// any more.
    pub fn set_connected(&mut self, status: bool)
        ensures
            final(self).is_connected() == status,
            !final(self).is_logging_in(),
            final(self).login_token() == old(self).login_token(),
    {
        self.connected = status;
        self.logging_in = false;
    }

    /// Whether the session counts as connected.
    pub fn connected(&self) -> (r: bool)
        ensures
            r == self.is_connected(),
    {
        self.connected
    }
}

/// Microseconds without an answer after which a ping is sent.
pub const PING_AFTER_US: u64 = 15_000_000;

/// Microseconds without an answer after which the session counts as lost.
pub const TIMEOUT_AFTER_US: u64 = 30_000_000;

/// Keeps track of when the server last answered a ping.
pub struct Heartbeat {
    /// When the server last answered, in microseconds.
    pub last_ping: u64,
    /// Whether a ping was sent and not yet answered.
    pub sent_ping: bool,
}

/// Microseconds from `last` to `now`, or 0 if `now` is earlier.
pub open spec fn elapsed(last: u64, now: u64) -> int {
    if now >= last {
        now - last
    } else {
        0
    }
}

/// One frame of the heartbeat of a session that is (or is not) connected: whether a ping
/// goes out, whether one is then outstanding, and whether the session stays connected.
/// Returns `(send_ping, sent_ping, connected)`.
pub open spec fn tick_outcome(last_ping: u64, sent_ping: bool, connected: bool, now: u64) -> (
    bool,
    bool,
    bool,
) {
    if !connected {
        (false, sent_ping, false)
    } else {
        let since = elapsed(last_ping, now);
        let send = since > PING_AFTER_US && !sent_ping;
        (send, sent_ping || send, since <= TIMEOUT_AFTER_US)
    }
}

impl Heartbeat {
    /// A heartbeat whose last answer came at `now`.
    pub fn new(now: u64) -> (r: Self)
        ensures
            r.last_ping == now,
            !r.sent_ping,
    {
        Heartbeat { last_ping: now, sent_ping: false }
    }

    /// Checks a connected session once per frame: after 15 seconds without an answer one
    /// ping is sent (the result says whether to send it), after 30 seconds the session
    /// counts as disconnected. A session that is not connected is left alone.
    pub fn tick(&mut self, azusa: &mut Azusa, now: u64) -> (send_ping: bool)
        ensures
            final(self).last_ping == old(self).last_ping,
            final(azusa).login_token() == old(azusa).login_token(),
            !old(azusa).is_connected() ==> {
                &&& !send_ping
                &&& final(self).sent_ping == old(self).sent_ping
                &&& final(azusa).is_connected() == old(azusa).is_connected()
                &&& final(azusa).is_logging_in() == old(azusa).is_logging_in()
            },
            old(azusa).is_connected() ==> {
                let (send, sent, connected) = tick_outcome(
                    old(self).last_ping,
                    old(self).sent_ping,
                    true,
                    now,
                );
                &&& send_ping == send
                &&& final(self).sent_ping == sent
                &&& final(azusa).is_connected() == connected
                &&& !connected ==> !final(azusa).is_logging_in()
                &&& connected ==> final(azusa).is_logging_in() == old(azusa).is_logging_in()
            },
    {
        let mut send_ping = false;
        if azusa.connected() {
            let since = if now >= self.last_ping {
                now - self.last_ping
            } else {
                0
            };
            if since > PING_AFTER_US && !self.sent_ping {
                send_ping = true;
                self.sent_ping = true;
            }
            if since > TIMEOUT_AFTER_US && azusa.connected() {
                azusa.set_connected(false);
            }
        }
        send_ping
    }

    /// The server answered a ping at `now`.
    pub fn on_pong(&mut self, now: u64)
        ensures
            final(self).last_ping == now,
            !final(self).sent_ping,
    {
        self.last_ping = now;
        self.sent_ping = false;
    }
}

/// Applies a packet from the server to the client's session: `Connected` marks the
/// session connected, `Pong` resets the heartbeat at `now`, a chat message is appended to
/// the chat; other packets change none of these.
pub fn handle_server_packet(
    azusa: &mut Azusa,
    heartbeat: &mut Heartbeat,
    chat: &mut Chat,
    packet: ServerPacket,
    now: u64,
)
    ensures
        final(azusa).login_token() == old(azusa).login_token(),
        match packet {
            ServerPacket::Connected { .. } => {
                &&& final(azusa).is_connected()
                &&& !final(azusa).is_logging_in()
                &&& *final(heartbeat) == *old(heartbeat)
                &&& final(chat)@ == old(chat)@
            },
            ServerPacket::Pong => {
                &&& final(heartbeat).last_ping == now
                &&& !final(heartbeat).sent_ping
                &&& final(azusa).is_connected() == old(azusa).is_connected()
                &&& final(azusa).is_logging_in() == old(azusa).is_logging_in()
                &&& final(chat)@ == old(chat)@
            },
            ServerPacket::Chat(p) => {
                &&& final(chat)@ == old(chat)@.push(p.0)
                &&& *final(heartbeat) == *old(heartbeat)
                &&& final(azusa).is_connected() == old(azusa).is_connected()
                &&& final(azusa).is_logging_in() == old(azusa).is_logging_in()
            },
            _ => {
                &&& final(chat)@ == old(chat)@
                &&& *final(heartbeat) == *old(heartbeat)
                &&& final(azusa).is_connected() == old(azusa).is_connected()
                &&& final(azusa).is_logging_in() == old(azusa).is_logging_in()
            },
        },
{
    match packet {
        ServerPacket::Connected { .. } => azusa.set_connected(true),
        ServerPacket::Pong => heartbeat.on_pong(now),
        ServerPacket::Chat(p) => chat.handle_packet(p),
        _ => {},
    }
}

/// Only one ping goes out per silence: once a ping was sent, later frames send none until
/// the server answers.
pub proof fn lemma_one_ping_per_silence(
    last_ping: u64,
    sent_ping: bool,
    connected: bool,
    now: u64,
    later: u64,
)
    ensures
        ({
            let (send1, sent1, connected1) = tick_outcome(last_ping, sent_ping, connected, now);
            let (send2, sent2, connected2) = tick_outcome(last_ping, sent1, connected1, later);
            send1 ==> !send2 && sent2
        }),
{
}

/// A connected session that hears nothing for more than the timeout is dropped.
pub proof fn lemma_silence_disconnects(last_ping: u64, sent_ping: bool, now: u64)
    requires
        now >= last_ping,
        now - last_ping > TIMEOUT_AFTER_US,
    ensures
        !tick_outcome(last_ping, sent_ping, true, now).2,
{
}

/// A session that just sent its login does not send another one in the next round on
/// the same connected socket.
pub proof fn lemma_login_sent_once(connected: bool, logging_in: bool)
    ensures
        ({
            let (c1, l1, s1) = receive_outcome(connected, logging_in, ConnectionStatus::Connected);
            let (c2, l2, s2) = receive_outcome(c1, l1, ConnectionStatus::Connected);
            s1 ==> !s2
        }),
{
}

/// A session whose socket is not connected never sends a login and never stays
/// connected.
pub proof fn lemma_no_login_without_socket(
    connected: bool,
    logging_in: bool,
    status: ConnectionStatus,
)
    requires
        status != ConnectionStatus::Connected,
    ensures
        ({
            let (c, l, s) = receive_outcome(connected, logging_in, status);
            !s && !c
        }),
{
}

/// A logged-in session on a socket that is still connected stays as it is and sends
/// nothing; a session is dropped only when its socket is not connected; a login goes out
/// only on a connected socket.
pub proof fn lemma_live_session_kept(connected: bool, logging_in: bool, status: ConnectionStatus)
    ensures
        receive_outcome(true, logging_in, ConnectionStatus::Connected) == (true, logging_in, false),
        ({
            let (c, l, s) = receive_outcome(connected, logging_in, status);
            &&& (connected && !c ==> status != ConnectionStatus::Connected)
            &&& (!connected ==> !c)
            &&& (s <==> status == ConnectionStatus::Connected && !connected && !logging_in)
            &&& (s ==> l && !c)
            &&& (!connected && status != ConnectionStatus::Connected ==> l == logging_in)
        }),
{
}

} // verus!
