use ctb_web::chart::{hit_sound_paths, hitsound_folder, Additions, HitSoundKind};
use ctb_web::azusa::ClientPacket;
use ctb_web::chat::{message_line, Chat, ChatMessage, ChatMessagePacket, ChatOverlay};
use ctb_web::frozen::Frozen;
use ctb_web::log::{log_line, should_flush, LogType};
use ctb_web::rulesets::JudgementResult;

fn packet(user: &str, content: &str) -> ChatMessagePacket {
    ChatMessagePacket(ChatMessage {
        username: user.to_string(),
        content: content.to_string(),
    })
}

#[test]
fn chat_keeps_messages_in_order() {
    let mut chat = Chat::new();
    assert!(chat.messages().is_empty());
    chat.handle_packet(packet("a", "hello"));
    chat.handle_packet(packet("b", "hi"));
    let messages = chat.messages();
    assert_eq!(messages.len(), 2);
    assert_eq!(messages[0].username, "a");
    assert_eq!(messages[0].content, "hello");
    assert_eq!(messages[1].username, "b");
    assert_eq!(messages[1].content, "hi");
}

#[test]
fn frozen_gives_back_its_value() {
    let f = Frozen(vec![1, 2, 3]);
    assert_eq!(f.len(), 3);
    assert_eq!(f.into_inner(), vec![1, 2, 3]);
}

#[test]
fn map_hit_maps_hits_only() {
    let hit: JudgementResult<u32> = JudgementResult::Hit(4);
    assert_eq!(hit.map_hit(|x| x * 2), JudgementResult::Hit(8));
    let miss: JudgementResult<u32> = JudgementResult::Miss;
    assert_eq!(miss.map_hit(|x| x * 2), JudgementResult::Miss);
}

#[test]
fn hitsound_folders() {
    assert_eq!(hitsound_folder(&HitSoundKind::Normal), "Normal");
    assert_eq!(hitsound_folder(&HitSoundKind::Soft), "Soft");
    assert_eq!(hitsound_folder(&HitSoundKind::Drum), "Drum");
    assert_eq!(hitsound_folder(&HitSoundKind::Custom("Mine".to_string())), "Mine");
    let a = Additions {
        whistle: true,
        finish: false,
        clap: true,
    };
    assert!(a.whistle && !a.finish && a.clap);
}

#[test]
fn flush_interval() {
    assert!(!should_flush(1_000, 0, 2_000));
    assert!(should_flush(2_000, 0, 2_000));
    assert!(should_flush(5_000, 1_000, 2_000));
    assert!(!should_flush(0, 1_000, 2_000));
    assert!(should_flush(0, 1_000, 0));
    assert_ne!(LogType::General, LogType::Network);
}

#[test]
fn log_lines_in_default_format() {
    assert_eq!(log_line(1234, LogType::Network, "hi"), "/1234/ [Network] hi");
    assert_eq!(log_line(0, LogType::General, ""), "/0/ [General] ");
    assert_eq!(
        log_line(1_700_000_000, LogType::AudioPerformance, "late"),
        "/1700000000/ [AudioPerformance] late"
    );
}

#[test]
fn caught_fruits_play_their_additions() {
    let none = Additions { whistle: false, finish: false, clap: false };
    assert_eq!(
        hit_sound_paths("Padoru", &HitSoundKind::Soft, none),
        vec!["resources/Padoru/HitSounds/Soft/Hit.wav".to_string()]
    );
    let all = Additions { whistle: true, finish: true, clap: true };
    assert_eq!(
        hit_sound_paths("K", &HitSoundKind::Custom("Mine".to_string()), all),
        vec![
            "resources/K/HitSounds/Mine/Hit.wav".to_string(),
            "resources/K/HitSounds/Mine/Whistle.wav".to_string(),
            "resources/K/HitSounds/Mine/Finish.wav".to_string(),
            "resources/K/HitSounds/Mine/Clap.wav".to_string(),
        ]
    );
    let clap = Additions { whistle: false, finish: false, clap: true };
    assert_eq!(
        hit_sound_paths("K", &HitSoundKind::Drum, clap),
        vec![
            "resources/K/HitSounds/Drum/Hit.wav".to_string(),
            "resources/K/HitSounds/Drum/Clap.wav".to_string(),
        ]
    );
}

#[test]
fn chat_overlay_sends_the_typed_line() {
    let mut overlay = ChatOverlay::new();
    assert!(overlay.update(&vec!['h', 'i'], false).is_none());
    assert_eq!(overlay.text_buffer, "hi");
    match overlay.update(&vec!['!'], true) {
        Some(ClientPacket::Chat(s)) => assert_eq!(s, "hi!"),
        other => panic!("unexpected {:?}", other),
    }
    assert!(overlay.text_buffer.is_empty());
    match overlay.update(&Vec::new(), true) {
        Some(ClientPacket::Chat(s)) => assert!(s.is_empty()),
        other => panic!("unexpected {:?}", other),
    }
}

#[test]
fn chat_lines_show_the_sender() {
    let m = ChatMessage {
        username: "Azusa".to_string(),
        content: "Welcome to ctb-web!".to_string(),
    };
    assert_eq!(message_line(&m), "Azusa: Welcome to ctb-web!");
}

#[test]
fn map_hit_identity_and_composition() {
    let f = |x: u32| x + 1;
    let g = |x: u32| x * 10;
    for r in [JudgementResult::Hit(3u32), JudgementResult::Miss] {
        assert_eq!(r.clone().map_hit(|h| h), r);
        assert_eq!(r.clone().map_hit(f).map_hit(g), r.clone().map_hit(|h| g(f(h))));
    }
    assert_eq!(JudgementResult::Hit(3u32).map_hit(f).map_hit(g), JudgementResult::Hit(40));
}
