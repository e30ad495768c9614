use ctb_web::result::{counts_text, result_texts};
use ctb_web::rulesets::catch::{CatchJudgement, CatchScoreRecorder};
use ctb_web::score::{Judgement, ScoreRecorder};

#[test]
fn test_score_recorder_limits() {
    for max_combo in 1..4000 {
        let mut recorder = ScoreRecorder::new(max_combo);
        for _ in 0..max_combo {
            recorder.register_judgement(CatchJudgement::Perfect);
        }
        assert_eq!(recorder.score, 1_000_000);
    }
}

#[test]
fn new_recorder_is_empty() {
    let recorder = CatchScoreRecorder::new(10);
    assert_eq!(recorder.combo, 0);
    assert_eq!(recorder.top_combo, 0);
    assert_eq!(recorder.max_combo, 10);
    assert_eq!(recorder.score, 0);
    assert_eq!(recorder.streak_sum, 0);
    assert_eq!(recorder.chain_miss_count, 0);
    assert_eq!(
        recorder.judgements,
        vec![(CatchJudgement::Perfect, 0), (CatchJudgement::Miss, 0)]
    );
}

#[test]
fn score_follows_streak_sum() {
    let mut recorder = CatchScoreRecorder::new(4);
    recorder.register_judgement(CatchJudgement::Perfect);
    assert_eq!(recorder.score, 100_000);
    recorder.register_judgement(CatchJudgement::Perfect);
    assert_eq!(recorder.combo, 2);
    assert_eq!(recorder.streak_sum, 3);
    assert_eq!(recorder.score, 300_000);
    recorder.register_judgement(CatchJudgement::Miss);
    assert_eq!(recorder.combo, 0);
    assert_eq!(recorder.top_combo, 2);
    assert_eq!(recorder.chain_miss_count, 1);
    assert_eq!(recorder.score, 300_000);
    recorder.register_judgement(CatchJudgement::Perfect);
    assert_eq!(recorder.combo, 1);
    assert_eq!(recorder.chain_miss_count, 0);
    assert_eq!(recorder.streak_sum, 4);
    assert_eq!(recorder.score, 400_000);
    assert_eq!(
        recorder.judgements,
        vec![(CatchJudgement::Perfect, 3), (CatchJudgement::Miss, 1)]
    );
}

#[test]
fn score_rounds_half_up() {
    // 2 * 1_000_000 * 1 / (3 * 4) = 166_666.67
    let mut recorder = CatchScoreRecorder::new(3);
    recorder.register_judgement(CatchJudgement::Perfect);
    assert_eq!(recorder.score, 166_667);
}

#[test]
fn misses_chain_up() {
    let mut recorder = CatchScoreRecorder::new(5);
    for _ in 0..3 {
        recorder.register_judgement(CatchJudgement::Miss);
    }
    assert_eq!(recorder.chain_miss_count, 3);
    assert_eq!(recorder.score, 0);
    assert_eq!(recorder.top_combo, 0);
}

#[test]
fn hit_in_empty_chart_saturates() {
    let mut recorder = CatchScoreRecorder::new(0);
    recorder.register_judgement(CatchJudgement::Perfect);
    assert_eq!(recorder.score, u32::MAX);
}

#[test]
fn more_hits_than_objects_exceed_a_million() {
    let mut recorder = CatchScoreRecorder::new(1);
    recorder.register_judgement(CatchJudgement::Perfect);
    recorder.register_judgement(CatchJudgement::Perfect);
    // streak sum 3, best possible 1: 3 * 1_000_000
    assert_eq!(recorder.score, 3_000_000);
}

#[test]
fn top_combo_keeps_the_longest_run() {
    let mut recorder = CatchScoreRecorder::new(10);
    let plays = [true, true, true, false, true, true, false, true];
    for hit in plays {
        recorder.register_judgement(if hit {
            CatchJudgement::Perfect
        } else {
            CatchJudgement::Miss
        });
    }
    assert_eq!(recorder.top_combo, 3);
    assert_eq!(recorder.combo, 1);
}

#[test]
fn to_score_copies_the_counters() {
    let mut recorder = CatchScoreRecorder::new(2);
    recorder.register_judgement(CatchJudgement::Perfect);
    recorder.register_judgement(CatchJudgement::Miss);
    let score = recorder.to_score(7, true);
    assert_eq!(score.username, None);
    assert_eq!(score.diff_id, 7);
    assert_eq!(score.top_combo, 1);
    assert_eq!(score.score, recorder.score);
    assert!(score.passed);
    assert_eq!(
        score.judgements,
        vec![(CatchJudgement::Perfect, 1), (CatchJudgement::Miss, 1)]
    );
    assert!(!recorder.to_score(7, false).passed);
}

#[test]
fn catch_judgements() {
    assert_eq!(CatchJudgement::miss(), CatchJudgement::Miss);
    assert!(CatchJudgement::Miss.is_miss());
    assert!(!CatchJudgement::Perfect.is_miss());
    assert_eq!(
        CatchJudgement::all(),
        vec![CatchJudgement::Perfect, CatchJudgement::Miss]
    );
    assert_eq!(CatchJudgement::Perfect.index(), 0);
    assert_eq!(CatchJudgement::Miss.index(), 1);
}

#[test]
fn score_and_top_combo_never_go_down() {
    let mut recorder = CatchScoreRecorder::new(6);
    let plays = [true, false, true, true, false, false, true, true];
    let mut last_score = recorder.score;
    let mut last_top = recorder.top_combo;
    let mut registered = 0u32;
    for hit in plays {
        recorder.register_judgement(if hit {
            CatchJudgement::Perfect
        } else {
            CatchJudgement::Miss
        });
        registered += 1;
        assert!(recorder.score >= last_score);
        assert!(recorder.top_combo >= last_top);
        assert!(recorder.combo <= recorder.top_combo);
        let total: u32 = recorder.judgements.iter().map(|&(_, c)| c).sum();
        assert_eq!(total, registered);
        last_score = recorder.score;
        last_top = recorder.top_combo;
    }
}

#[test]
fn result_screen_lines() {
    let mut recorder = CatchScoreRecorder::new(4);
    for hit in [true, true, false, true] {
        recorder.register_judgement(if hit {
            CatchJudgement::Perfect
        } else {
            CatchJudgement::Miss
        });
    }
    let score = recorder.to_score(3, true);
    assert_eq!(
        result_texts("Padoru", "Salad", &score),
        vec![
            "Padoru [Salad] (Passed)".to_string(),
            "2x".to_string(),
            "3/1".to_string(),
            "400000".to_string(),
        ]
    );
    let failed = recorder.to_score(3, false);
    assert_eq!(result_texts("A", "B", &failed)[0], "A [B] (Failed)");
    assert_eq!(counts_text(&Vec::new()), "");
    assert_eq!(counts_text(&vec![(CatchJudgement::Miss, 120)]), "120");
}

#[test]
fn score_stays_within_a_million_while_hits_fit_the_chart() {
    for max_combo in 1..60u32 {
        let mut recorder = CatchScoreRecorder::new(max_combo);
        let mut hits = 0;
        let mut i = 0u32;
        while hits < max_combo {
            let j = if i % 7 == 3 { CatchJudgement::Miss } else { CatchJudgement::Perfect };
            if j == CatchJudgement::Perfect {
                hits += 1;
            }
            recorder.register_judgement(j);
            assert!(recorder.score <= 1_000_000);
            assert!(recorder.top_combo <= max_combo);
            i += 1;
        }
    }
}
