use ctb_web::gameplay::{
    judge_frame, judged_fruits, plate_overflows, plays_combo_break, remove_judged, COMBO_BREAK_THRESHOLD,
};
use ctb_web::replay::{
    playback_input, records_sync_frame, RecordedInputs, ReplayType, SYNC_FRAME_INTERVAL,
};
use ctb_web::rulesets::catch::{CatchInput, CatchJudgement, CatchScoreRecorder};
use ctb_web::ui::{ExpandableListMessage, MessageData, Popout};
use ctb_web::screen::{
    chart_list_titles, get_charts, select_key_messages, SelectKeys, new_chart_list, next_index, next_overlay, previous_index, Login,
    OverlayKeys, OverlayKind,
};

#[test]
fn bundled_charts() {
    let charts = get_charts();
    assert_eq!(charts.len(), 3);
    let titles: Vec<&str> = charts.iter().map(|c| c.title.as_str()).collect();
    assert_eq!(titles, vec!["Kizuato", "Padoru", "Troublemaker"]);
    assert_eq!(charts[0].id, 1);
    assert_eq!(charts[0].difficulty(1).name, "Ascendance's Rain");
    assert_eq!(charts[0].difficulty(1).id, 2);
    assert_eq!(charts[1].difficulties.len(), 2);
    assert_eq!(charts[1].difficulty(0).name, "Salad");
    let t = &charts[2];
    assert_eq!(t.id, 3);
    let ids: Vec<u32> = t.difficulties.iter().map(|d| d.id).collect();
    assert_eq!(ids, vec![5, 6, 7, 8, 9, 10]);
    assert_eq!(t.difficulty(5).name, "Kagari's Himedose");
}

#[test]
fn navigation_wraps_around() {
    assert_eq!(next_index(0, 3), 1);
    assert_eq!(next_index(2, 3), 0);
    assert_eq!(previous_index(0, 3), 2);
    assert_eq!(previous_index(2, 3), 1);
    assert_eq!(next_index(0, 1), 0);
    assert_eq!(previous_index(0, 1), 0);
    for len in 1..6 {
        for i in 0..len {
            assert_eq!(previous_index(next_index(i, len), len), i);
            assert_eq!(next_index(previous_index(i, len), len), i);
        }
    }
}

fn keys(chat: bool, settings: bool, login: bool) -> OverlayKeys {
    OverlayKeys { chat, settings, login }
}

#[test]
fn overlay_keys_toggle_overlays() {
    let none = keys(false, false, false);
    assert_eq!(next_overlay(None, none, None), None);
    assert_eq!(
        next_overlay(None, keys(true, false, false), Some(true)),
        Some(OverlayKind::Chat)
    );
    assert_eq!(
        next_overlay(Some(OverlayKind::Chat), keys(true, false, false), Some(true)),
        None
    );
    // The chat needs a connected session, the login form needs no session at all.
    assert_eq!(next_overlay(None, keys(true, false, false), Some(false)), None);
    assert_eq!(next_overlay(None, keys(true, false, false), None), None);
    assert_eq!(
        next_overlay(None, keys(false, false, true), None),
        Some(OverlayKind::Login)
    );
    assert_eq!(next_overlay(None, keys(false, false, true), Some(false)), None);
    assert_eq!(
        next_overlay(Some(OverlayKind::Mods), keys(false, true, false), None),
        Some(OverlayKind::Settings)
    );
    assert_eq!(
        next_overlay(Some(OverlayKind::Settings), keys(false, true, false), None),
        None
    );
    // Settings then login in one frame: the login form wins.
    assert_eq!(
        next_overlay(None, keys(false, true, true), None),
        Some(OverlayKind::Login)
    );
    let once = next_overlay(None, keys(false, true, false), Some(true));
    assert_eq!(next_overlay(once, keys(false, true, false), Some(true)), None);
}

#[test]
fn login_form_starts_empty() {
    let l = Login::new();
    assert!(l.username.is_empty());
    assert!(l.password.is_empty());
}

#[test]
fn sync_frames_every_ten_inputs() {
    assert_eq!(SYNC_FRAME_INTERVAL, 10);
    assert!(records_sync_frame(0));
    assert!(!records_sync_frame(1));
    assert!(!records_sync_frame(9));
    assert!(records_sync_frame(10));
    assert!(records_sync_frame(120));
}

#[test]
fn replay_inputs_run_out_to_no_keys() {
    let inputs = vec![
        CatchInput { left: true, right: false, dash: true },
        CatchInput { left: false, right: true, dash: false },
    ];
    let i = playback_input(&inputs, 1);
    assert!(!i.left && i.right && !i.dash);
    let i = playback_input(&inputs, 2);
    assert!(!i.left && !i.right && !i.dash);
}

#[test]
fn replay_advances_and_jumps_to_sync_frames() {
    let mut r = ReplayType::Playback { input_index: 4, sync_frame_index: 0 };
    assert!(!r.advance(None));
    assert_eq!(r, ReplayType::Playback { input_index: 5, sync_frame_index: 0 });
    assert!(r.advance(Some(10)));
    assert_eq!(r, ReplayType::Playback { input_index: 10, sync_frame_index: 1 });
}

#[test]
fn judged_fruits_leave_the_queue() {
    let mut queue = vec![10, 11, 12, 13, 14];
    let positions = vec![0, 2, 3];
    assert_eq!(judged_fruits(&queue, &positions), vec![10, 12, 13]);
    remove_judged(&mut queue, &positions);
    assert_eq!(queue, vec![11, 14]);
    remove_judged(&mut queue, &Vec::new());
    assert_eq!(queue, vec![11, 14]);
    remove_judged(&mut queue, &vec![0, 1]);
    assert!(queue.is_empty());
}

#[test]
fn combo_break_and_plate_limits() {
    assert_eq!(COMBO_BREAK_THRESHOLD, 8);
    assert!(!plays_combo_break(7));
    assert!(plays_combo_break(8));
    assert!(!plate_overflows(7, 8));
    assert!(plate_overflows(8, 8));
    assert!(plate_overflows(0, 0));
}

#[test]
fn chart_list_of_the_select_screen() {
    let charts = get_charts();
    let titles = chart_list_titles(&charts);
    assert_eq!(titles.len(), 3);
    assert_eq!(titles[1].0, vec!["Padoru".to_string()]);
    assert_eq!(titles[1].1, vec!["Salad".to_string(), "Platter".to_string()]);

    let (list, first) = new_chart_list(&charts);
    assert_eq!(list.id, "button_list");
    assert_eq!(first.target, "button_list");
    assert_eq!(first.data, MessageData::ExpandableList(ExpandableListMessage::Click(0)));
    assert_eq!(list.buttons.len(), 3);
    assert_eq!(list.buttons[2].0.id, "button_list-2");
    assert_eq!(list.buttons[2].0.title, vec!["Troublemaker".to_string()]);
    assert_eq!(list.buttons[2].1.len(), 6);
    assert_eq!(list.buttons[2].1[3].id, "button_list-2-3");
    assert_eq!(list.buttons[2].1[3].title, vec!["MBomb's Light Rain".to_string()]);
    assert!(list.buttons.iter().all(|b| b.0.popout == Popout::Left));
}

#[test]
fn a_frame_judges_each_fruit_once() {
    let mut queue = vec![3, 4, 5, 6, 7, 8, 9, 10, 11, 12];
    let mut recorder = CatchScoreRecorder::new(20);
    let hits: Vec<(usize, CatchJudgement)> = (0..8).map(|i| (i, CatchJudgement::Perfect)).collect();
    let (fruits, breaks) = judge_frame(&mut queue, &mut recorder, &hits);
    assert_eq!(fruits, vec![3, 4, 5, 6, 7, 8, 9, 10]);
    assert_eq!(breaks, vec![false; 8]);
    assert_eq!(queue, vec![11, 12]);
    assert_eq!(recorder.combo, 8);
    let judged = vec![(0, CatchJudgement::Miss), (1, CatchJudgement::Miss)];
    let (fruits, breaks) = judge_frame(&mut queue, &mut recorder, &judged);
    assert_eq!(fruits, vec![11, 12]);
    // Only the miss that ends the combo of eight plays the combo-break sound.
    assert_eq!(breaks, vec![true, false]);
    assert!(queue.is_empty());
    assert_eq!(
        recorder.judgements,
        vec![(CatchJudgement::Perfect, 8), (CatchJudgement::Miss, 2)]
    );
}

#[test]
fn recorded_inputs_get_a_sync_frame_every_ten() {
    let mut rec = RecordedInputs::new();
    let input = CatchInput { left: true, right: false, dash: false };
    let mut syncs = Vec::new();
    for _ in 0..25 {
        syncs.push(rec.record(input));
    }
    assert_eq!(rec.inputs.len(), 25);
    assert_eq!(rec.sync_inputs, vec![0, 10, 20]);
    assert!(syncs[0] && syncs[10] && syncs[20]);
    assert_eq!(syncs.iter().filter(|s| **s).count(), 3);
}

#[test]
fn arrow_keys_click_charts_and_difficulties() {
    let (list, _) = new_chart_list(&get_charts());
    let none = SelectKeys { right: false, left: false, down: false, up: false };
    assert!(select_key_messages(&list, none).is_empty());
    let both = SelectKeys { right: true, left: true, down: true, up: true };
    let msgs = select_key_messages(&list, both);
    let data: Vec<MessageData> = msgs.iter().map(|m| m.data).collect();
    assert!(msgs.iter().all(|m| m.target == "button_list"));
    assert_eq!(
        data,
        vec![
            MessageData::ExpandableList(ExpandableListMessage::Click(1)),
            MessageData::ExpandableList(ExpandableListMessage::ClickSub(1)),
            MessageData::ExpandableList(ExpandableListMessage::ClickSub(1)),
        ]
    );
    let left = SelectKeys { right: false, left: true, down: false, up: true };
    let data: Vec<MessageData> = select_key_messages(&list, left).iter().map(|m| m.data).collect();
    assert_eq!(
        data,
        vec![
            MessageData::ExpandableList(ExpandableListMessage::Click(2)),
            MessageData::ExpandableList(ExpandableListMessage::ClickSub(1)),
        ]
    );
}
