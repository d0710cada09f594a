use kael_skills::game::{GameState, Grade, KaelSkillsApp, KeyEffect, ROUND_LENGTH};
use kael_skills::skills::SKILL_COUNT;

fn round(targets: Vec<usize>) -> KaelSkillsApp {
    let mut app = KaelSkillsApp::default();
    app.start_game_with(targets);
    app
}

fn type_str(app: &mut KaelSkillsApp, s: &str) -> Vec<KeyEffect> {
    s.chars().map(|c| app.handle_key(c)).collect()
}

#[test]
fn default_is_idle() {
    let app = KaelSkillsApp::default();
    assert_eq!(app.state(), GameState::Idle);
    assert_eq!(app.current_input(), "");
    assert!(app.target_skills().is_empty());
    assert!(app.done_skills().is_empty());
    assert_eq!(app.current_count(), 0);
    assert_eq!(app.correct_count(), 0);
}

#[test]
fn idle_ignores_every_key() {
    let mut app = KaelSkillsApp::default();
    for e in type_str(&mut app, "qweRnNx") {
        assert_eq!(e, KeyEffect::Ignored);
    }
    assert_eq!(app.state(), GameState::Idle);
    assert_eq!(app.current_input(), "");
}

#[test]
fn start_game_with_resets_round() {
    let app = round(vec![0, 1, 2, 3, 4, 5, 6, 7, 8, 9]);
    assert_eq!(app.state(), GameState::Playing);
    assert_eq!(app.target_skills(), &vec![0, 1, 2, 3, 4, 5, 6, 7, 8, 9]);
    assert_eq!(app.current_count(), 0);
    assert_eq!(app.target_letters(), vec!['B', 'C', 'D', 'F', 'G', 'T', 'V', 'X', 'Y', 'Z']);
}

#[test]
fn start_game_draws_valid_targets() {
    for _ in 0..50 {
        let mut app = KaelSkillsApp::default();
        app.start_game();
        assert_eq!(app.state(), GameState::Playing);
        assert_eq!(app.target_skills().len(), ROUND_LENGTH);
        assert!(app.target_skills().iter().all(|&t| t < SKILL_COUNT));
        assert_eq!(app.current_count(), 0);
        assert_eq!(app.correct_count(), 0);
        assert_eq!(app.current_input(), "");
    }
}

#[test]
fn typing_records_upper_case_orbs() {
    let mut app = round(vec![0; 10]);
    let effects = type_str(&mut app, "qWex");
    assert_eq!(effects, vec![KeyEffect::Typed, KeyEffect::Typed, KeyEffect::Typed, KeyEffect::Ignored]);
    assert_eq!(app.current_input(), "QWE");
}

#[test]
fn confirm_judges_and_clears() {
    let mut app = round(vec![0, 5, 0, 0, 0, 0, 0, 0, 0, 0]);
    let effects = type_str(&mut app, "ewqr");
    assert_eq!(
        effects[3],
        KeyEffect::Confirmed { correct: true, starts_clock: true, finishes_round: false }
    );
    assert_eq!(app.current_input(), "");
    assert_eq!(app.done_skills(), &vec![true]);
    let effects = type_str(&mut app, "eeqR");
    assert_eq!(
        effects[3],
        KeyEffect::Confirmed { correct: false, starts_clock: false, finishes_round: false }
    );
    assert_eq!(app.done_skills(), &vec![true, false]);
    assert_eq!(app.current_count(), 2);
    assert_eq!(app.correct_count(), 1);
    assert_eq!(app.done_tiles(), vec![('B', true), ('T', false)]);
}

#[test]
fn empty_confirm_counts_as_wrong() {
    let mut app = round(vec![8; 10]);
    assert_eq!(
        app.handle_key('r'),
        KeyEffect::Confirmed { correct: false, starts_clock: true, finishes_round: false }
    );
    assert_eq!(app.current_count(), 1);
}

#[test]
fn round_finishes_after_ten_confirms() {
    let mut app = round(vec![8; 10]);
    for i in 0..ROUND_LENGTH {
        type_str(&mut app, "qqq");
        let e = app.handle_key('R');
        assert_eq!(
            e,
            KeyEffect::Confirmed {
                correct: true,
                starts_clock: i == 0,
                finishes_round: i + 1 == ROUND_LENGTH
            }
        );
    }
    assert_eq!(app.state(), GameState::Finished);
    assert_eq!(app.accuracy(), 100);
    assert_eq!(app.grade(), Grade::High);
    for e in type_str(&mut app, "qwerx") {
        assert_eq!(e, KeyEffect::Ignored);
    }
    assert_eq!(app.current_count(), 10);
}

fn finish_with(correct: usize) -> KaelSkillsApp {
    let mut app = round(vec![1; 10]);
    for i in 0..ROUND_LENGTH {
        if i < correct {
            type_str(&mut app, "www");
        } else {
            type_str(&mut app, "wwe");
        }
        app.handle_key('r');
    }
    app
}

#[test]
fn accuracy_and_grades() {
    let cases = [
        (10, 100, Grade::High),
        (9, 90, Grade::High),
        (8, 80, Grade::Medium),
        (7, 70, Grade::Medium),
        (6, 60, Grade::Low),
        (0, 0, Grade::Low),
    ];
    for (correct, acc, grade) in cases {
        let app = finish_with(correct);
        assert_eq!(app.state(), GameState::Finished);
        assert_eq!(app.correct_count(), correct);
        assert_eq!(app.accuracy(), acc);
        assert_eq!(app.grade(), grade);
    }
}

#[test]
fn new_round_only_when_finished() {
    let mut app = round(vec![1; 10]);
    assert_eq!(app.handle_key('n'), KeyEffect::Ignored);
    assert_eq!(app.state(), GameState::Playing);
    let mut app = finish_with(3);
    assert_eq!(app.handle_key('N'), KeyEffect::Restarted);
    assert_eq!(app.state(), GameState::Playing);
    assert_eq!(app.current_count(), 0);
    assert_eq!(app.correct_count(), 0);
    assert!(app.done_skills().is_empty());
    assert_eq!(app.target_skills().len(), ROUND_LENGTH);
    assert!(app.target_skills().iter().all(|&t| t < SKILL_COUNT));
    assert_eq!(
        app.handle_key('r'),
        KeyEffect::Confirmed { correct: false, starts_clock: true, finishes_round: false }
    );
}
