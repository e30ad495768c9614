use ctb_web::azusa::{
    handle_server_packet, Azusa, ClientPacket, Heartbeat, ServerPacket, PING_AFTER_US,
    TIMEOUT_AFTER_US,
};
use ctb_web::chat::{Chat, ChatMessage, ChatMessagePacket};
use ctb_web::rulesets::catch::{CatchJudgement, CatchScore, CatchScoreRecorder};
use ctb_web::server::{
    judgement_count, leaderboard_reply, recipients, Client, ClientAction, LeaderboardRow, Target,
};
use ctb_web::web_socket::{socket_status, ConnectionStatus, SocketEvent, SocketState};

fn token() -> uuid::Uuid {
    uuid::Uuid::from_bytes([7; 16])
}

#[test]
fn login_is_sent_once_per_connection() {
    let mut azusa = Azusa::new(token());
    assert!(!azusa.connected());
    assert!(azusa.receive(ConnectionStatus::Connecting).is_none());
    match azusa.receive(ConnectionStatus::Connected) {
        Some(ClientPacket::Login(t)) => assert_eq!(t, token()),
        other => panic!("expected a login, got {:?}", other),
    }
    assert!(azusa.receive(ConnectionStatus::Connected).is_none());
    assert!(!azusa.connected());
}

#[test]
fn connected_packet_marks_the_session_connected() {
    let mut azusa = Azusa::new(token());
    let mut heartbeat = Heartbeat::new(0);
    let mut chat = Chat::new();
    azusa.receive(ConnectionStatus::Connected);
    handle_server_packet(
        &mut azusa,
        &mut heartbeat,
        &mut chat,
        ServerPacket::Connected { version: String::new() },
        5,
    );
    assert!(azusa.connected());
    assert!(azusa.receive(ConnectionStatus::Connected).is_none());
    // Losing the socket drops the session, and the next connection logs in again.
    assert!(azusa.receive(ConnectionStatus::Disconnected).is_none());
    assert!(!azusa.connected());
    assert!(matches!(
        azusa.receive(ConnectionStatus::Connected),
        Some(ClientPacket::Login(_))
    ));
}

#[test]
fn server_chat_and_pong_reach_the_client() {
    let mut azusa = Azusa::new(token());
    let mut heartbeat = Heartbeat::new(0);
    heartbeat.sent_ping = true;
    let mut chat = Chat::new();
    handle_server_packet(&mut azusa, &mut heartbeat, &mut chat, ServerPacket::Pong, 42);
    assert_eq!(heartbeat.last_ping, 42);
    assert!(!heartbeat.sent_ping);
    let packet = ChatMessagePacket(ChatMessage {
        username: "Azusa".to_string(),
        content: "hi".to_string(),
    });
    handle_server_packet(&mut azusa, &mut heartbeat, &mut chat, ServerPacket::Chat(packet), 50);
    assert_eq!(chat.messages().len(), 1);
    assert_eq!(chat.messages()[0].content, "hi");
    handle_server_packet(
        &mut azusa,
        &mut heartbeat,
        &mut chat,
        ServerPacket::Echo("x".to_string()),
        60,
    );
    assert_eq!(chat.messages().len(), 1);
    assert_eq!(heartbeat.last_ping, 42);
}

fn connected_session() -> Azusa {
    let mut azusa = Azusa::new(token());
    azusa.set_connected(true);
    azusa
}

#[test]
fn heartbeat_pings_once_then_times_out() {
    let mut azusa = connected_session();
    let mut heartbeat = Heartbeat::new(1_000);
    assert!(!heartbeat.tick(&mut azusa, 1_000 + PING_AFTER_US));
    assert!(heartbeat.tick(&mut azusa, 1_001 + PING_AFTER_US));
    assert!(heartbeat.sent_ping);
    assert!(!heartbeat.tick(&mut azusa, 2_000 + PING_AFTER_US));
    assert!(azusa.connected());
    assert!(!heartbeat.tick(&mut azusa, 1_000 + TIMEOUT_AFTER_US));
    assert!(azusa.connected());
    assert!(!heartbeat.tick(&mut azusa, 1_001 + TIMEOUT_AFTER_US));
    assert!(!azusa.connected());
}

#[test]
fn heartbeat_leaves_a_closed_session_alone() {
    let mut azusa = Azusa::new(token());
    let mut heartbeat = Heartbeat::new(0);
    assert!(!heartbeat.tick(&mut azusa, 10 * TIMEOUT_AFTER_US));
    assert!(!heartbeat.sent_ping);
    assert!(!azusa.connected());
}

#[test]
fn clock_going_back_counts_as_no_time() {
    let mut azusa = connected_session();
    let mut heartbeat = Heartbeat::new(TIMEOUT_AFTER_US * 3);
    assert!(!heartbeat.tick(&mut azusa, 0));
    assert!(azusa.connected());
}

#[test]
fn new_client_is_greeted() {
    let (client, actions) = Client::new("alice".to_string(), 3);
    assert_eq!(client.username, "alice");
    assert_eq!(client.user_id, 3);
    assert_eq!(actions.len(), 3);
    for action in &actions[..2] {
        match action {
            ClientAction::Send(Target::User(n), ServerPacket::Connected { version }) => {
                assert_eq!(n, "alice");
                assert!(version.is_empty());
            }
            other => panic!("unexpected {:?}", other),
        }
    }
    match &actions[2] {
        ClientAction::Send(Target::User(n), ServerPacket::Chat(ChatMessagePacket(m))) => {
            assert_eq!(n, "alice");
            assert_eq!(m.username, "Azusa");
            assert_eq!(m.content, "Welcome to ctb-web!");
        }
        other => panic!("unexpected {:?}", other),
    }
}

#[test]
fn client_answers_echo_ping_and_chat() {
    let (mut client, _) = Client::new("bob".to_string(), 9);
    let r = client.handle(ClientPacket::Echo("abc".to_string()));
    assert_eq!(r.len(), 1);
    assert!(matches!(&r[0], ClientAction::Send(Target::User(n), ServerPacket::Echo(e)) if n == "bob" && e == "abc"));

    let r = client.handle(ClientPacket::Ping);
    assert_eq!(r.len(), 3);
    assert!(matches!(&r[0], ClientAction::Send(Target::User(n), ServerPacket::Pong) if n == "bob"));
    assert!(matches!(&r[1], ClientAction::ResetPing));
    assert!(matches!(&r[2], ClientAction::Send(Target::User(n), ServerPacket::Chat(ChatMessagePacket(m)))
        if n == "bob" && m.username == "Azusa" && m.content == "Ping-Pong"));

    let r = client.handle(ClientPacket::Chat("hello all".to_string()));
    assert_eq!(r.len(), 1);
    assert!(matches!(&r[0], ClientAction::Send(Target::Everyone, ServerPacket::Chat(ChatMessagePacket(m)))
        if m.username == "bob" && m.content == "hello all"));
}

#[test]
fn client_stores_scores_and_asks_for_leaderboards() {
    let (mut client, _) = Client::new("carol".to_string(), 12);
    let score = CatchScore {
        username: None,
        diff_id: 4,
        top_combo: 30,
        judgements: vec![(CatchJudgement::Perfect, 40), (CatchJudgement::Miss, 2)],
        score: 812_345,
        passed: true,
    };
    let r = client.handle(ClientPacket::Submit(score));
    assert_eq!(r.len(), 1);
    match &r[0] {
        ClientAction::StoreScore { user_id, diff_id, hit_count, miss_count, score, top_combo } => {
            assert_eq!(*user_id, 12);
            assert_eq!(*diff_id, 4);
            assert_eq!(*hit_count, 40);
            assert_eq!(*miss_count, 2);
            assert_eq!(*score, 812_345);
            assert_eq!(*top_combo, 30);
        }
        other => panic!("unexpected {:?}", other),
    }
    let r = client.handle(ClientPacket::RequestLeaderboard(7));
    assert_eq!(r.len(), 1);
    assert!(matches!(r[0], ClientAction::FetchLeaderboard(7)));
}

#[test]
fn judgement_counts_take_the_first_entry() {
    let j = vec![
        (CatchJudgement::Miss, 5),
        (CatchJudgement::Perfect, 6),
        (CatchJudgement::Miss, 9),
    ];
    assert_eq!(judgement_count(&j, CatchJudgement::Miss), 5);
    assert_eq!(judgement_count(&j, CatchJudgement::Perfect), 6);
    assert_eq!(judgement_count(&Vec::new(), CatchJudgement::Perfect), 0);
}

fn row(name: &str, hits: i32, misses: i32, score: i32, combo: i32) -> LeaderboardRow {
    LeaderboardRow {
        username: name.to_string(),
        hit_count: hits,
        miss_count: misses,
        score,
        top_combo: combo,
    }
}

#[test]
fn leaderboard_rows_become_scores() {
    let reply = leaderboard_reply(3, vec![row("a", 10, 0, 1_000_000, 10), row("b", 8, 2, 600_000, 5)]);
    match reply {
        Some(ServerPacket::Leaderboard { diff_id, scores }) => {
            assert_eq!(diff_id, 3);
            assert_eq!(scores.len(), 2);
            assert_eq!(scores[0].username.as_deref(), Some("a"));
            assert_eq!(scores[0].score, 1_000_000);
            assert_eq!(
                scores[1].judgements,
                vec![(CatchJudgement::Perfect, 8), (CatchJudgement::Miss, 2)]
            );
            assert_eq!(scores[1].top_combo, 5);
            assert_eq!(scores[1].diff_id, 3);
            assert!(scores[1].passed);
        }
        other => panic!("unexpected {:?}", other),
    }
    assert!(leaderboard_reply(3, vec![row("a", 10, -1, 5, 1)]).is_none());
    assert!(matches!(
        leaderboard_reply(1, Vec::new()),
        Some(ServerPacket::Leaderboard { diff_id: 1, ref scores }) if scores.is_empty()
    ));
}

#[test]
fn packets_reach_their_recipients() {
    let names = vec!["a".to_string(), "b".to_string(), "b".to_string()];
    assert_eq!(recipients(&Target::Everyone, &names), Some(vec![0, 1, 2]));
    assert_eq!(recipients(&Target::User("b".to_string()), &names), Some(vec![1]));
    assert_eq!(recipients(&Target::User("z".to_string()), &names), None);
}

#[test]
fn socket_status_follows_its_state() {
    assert_eq!(socket_status(true, true), ConnectionStatus::Connected);
    assert_eq!(socket_status(false, true), ConnectionStatus::Connecting);
    assert_eq!(socket_status(false, false), ConnectionStatus::Disconnected);
}

#[test]
fn socket_events_are_folded_in_order() {
    let mut state = SocketState { has_sender: false, connecting: true };
    let r = state.handle_events(vec![
        SocketEvent::Connected,
        SocketEvent::Message(vec![1, 2]),
        SocketEvent::Message(vec![3]),
    ]);
    assert_eq!(r, Ok(vec![vec![1, 2], vec![3]]));
    assert_eq!(state, SocketState { has_sender: true, connecting: false });

    let r = state.handle_events(vec![
        SocketEvent::Message(vec![4]),
        SocketEvent::Error("boom".to_string()),
        SocketEvent::Message(vec![5]),
    ]);
    assert_eq!(r, Err("Web Socket Error: boom".to_string()));
    assert!(state.has_sender);

    let r = state.handle_events(vec![SocketEvent::Close {
        code: "1000".to_string(),
        reason: "bye".to_string(),
    }]);
    assert_eq!(r, Err("Web Socket Closed with code 1000. Reason: bye".to_string()));
    assert_eq!(state, SocketState { has_sender: false, connecting: false });
}

#[test]
fn stored_score_comes_back_on_the_leaderboard() {
    let mut recorder = CatchScoreRecorder::new(5);
    for hit in [true, true, false, true, true] {
        recorder.register_judgement(if hit { CatchJudgement::Perfect } else { CatchJudgement::Miss });
    }
    let score = recorder.to_score(11, true);
    let (mut client, _) = Client::new("dora".to_string(), 2);
    let actions = client.handle(ClientPacket::Submit(score.clone()));
    let row = match &actions[0] {
        ClientAction::StoreScore { hit_count, miss_count, score, top_combo, .. } => {
            assert_eq!(*hit_count, 4);
            assert_eq!(*miss_count, 1);
            LeaderboardRow {
                username: "dora".to_string(),
                hit_count: *hit_count as i32,
                miss_count: *miss_count as i32,
                score: *score as i32,
                top_combo: *top_combo as i32,
            }
        }
        other => panic!("unexpected {:?}", other),
    };
    match leaderboard_reply(11, vec![row]) {
        Some(ServerPacket::Leaderboard { scores, .. }) => {
            assert_eq!(scores[0].judgements, score.judgements);
            assert_eq!(scores[0].score, score.score);
            assert_eq!(scores[0].top_combo, 2);
            assert_eq!(scores[0].diff_id, 11);
            assert_eq!(scores[0].username.as_deref(), Some("dora"));
        }
        other => panic!("unexpected {:?}", other),
    }
}
