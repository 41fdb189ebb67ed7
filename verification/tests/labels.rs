use whack_a_mole::constants::GAME_DURATION_SECS;
use whack_a_mole::game::tick_game_timer;
use whack_a_mole::resources::{GameTimer, HighScore, Score};
use whack_a_mole::hud::{
    high_score_label, push_decimal, score_label, time_label, update_hud, whole_seconds_left,
};

const SEC: u64 = 1_000_000_000;

#[test]
fn labels_read_their_numbers() {
    assert_eq!(score_label(0), "Score: 0");
    assert_eq!(score_label(1234), "Score: 1234");
    assert_eq!(high_score_label(4294967295), "High Score: 4294967295");
    assert_eq!(time_label(GAME_DURATION_SECS), "Time: 30");
    assert_eq!(time_label(10), "Time: 10");
}

#[test]
fn decimal_of_the_largest_number() {
    let mut s = String::from("n=");
    push_decimal(&mut s, u64::MAX);
    assert_eq!(s, "n=18446744073709551615");
}

#[test]
fn seconds_left_are_rounded_up() {
    let mut timer = GameTimer::new_round();
    let mut high = HighScore(0);
    let score = Score(0);
    assert_eq!(whole_seconds_left(&timer), 30);
    tick_game_timer(&mut timer, SEC / 2, &score, &mut high);
    assert_eq!(whole_seconds_left(&timer), 30);
    tick_game_timer(&mut timer, SEC / 2, &score, &mut high);
    assert_eq!(whole_seconds_left(&timer), 29);
    tick_game_timer(&mut timer, 28 * SEC + SEC / 2 + 1, &score, &mut high);
    assert_eq!(whole_seconds_left(&timer), 1);
    tick_game_timer(&mut timer, SEC, &score, &mut high);
    assert_eq!(whole_seconds_left(&timer), 0);
}

#[test]
fn hud_texts_for_a_frame() {
    let mut timer = GameTimer::new_round();
    let mut high = HighScore(0);
    tick_game_timer(&mut timer, 5 * SEC, &Score(0), &mut high);
    let (time, score) = update_hud(&timer, &Score(17));
    assert_eq!(time, "Time: 25");
    assert_eq!(score, "Score: 17");
}
