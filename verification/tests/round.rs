use whack_a_mole::constants::GAME_DURATION_NANOS;
use whack_a_mole::game::{
    despawn_all_moles, handle_mole_click, spawn_mole, tick_game_timer, tick_mole_lifetimes,
};
use whack_a_mole::menu::{handle_start_button, ButtonInteraction};
use whack_a_mole::moles::{Mole, Moles};
use whack_a_mole::resources::{GameState, GameTimer, HighScore, MoleSpawnTimer, Score};

const SEC: u64 = 1_000_000_000;

#[test]
fn round_lasts_thirty_seconds_and_ends_once() {
    let mut timer = GameTimer::new_round();
    let score = Score(5);
    let mut high = HighScore(2);
    for _ in 0..29 {
        assert_eq!(tick_game_timer(&mut timer, SEC, &score, &mut high), None);
    }
    assert_eq!(high.0, 2);
    assert_eq!(tick_game_timer(&mut timer, SEC / 2, &score, &mut high), None);
    assert_eq!(
        tick_game_timer(&mut timer, SEC / 2, &score, &mut high),
        Some(GameState::Menu)
    );
    assert_eq!(high.0, 5);
    assert_eq!(tick_game_timer(&mut timer, SEC, &score, &mut high), None);
    assert_eq!(high.0, 5);
    assert_eq!(GAME_DURATION_NANOS, 30 * SEC);
}

#[test]
fn high_score_kept_when_not_beaten() {
    let mut timer = GameTimer::new_round();
    let score = Score(3);
    let mut high = HighScore(7);
    assert_eq!(
        tick_game_timer(&mut timer, 31 * SEC, &score, &mut high),
        Some(GameState::Menu)
    );
    assert_eq!(high.0, 7);
}

#[test]
fn high_score_kept_on_a_tie() {
    let mut timer = GameTimer::new_round();
    let score = Score(7);
    let mut high = HighScore(7);
    assert_eq!(
        tick_game_timer(&mut timer, 30 * SEC, &score, &mut high),
        Some(GameState::Menu)
    );
    assert_eq!(high.0, 7);
}

#[test]
fn a_mole_pops_up_every_second() {
    let mut spawner = MoleSpawnTimer::new_round();
    let round = GameTimer::new_round();
    assert!(spawn_mole(&mut spawner, SEC / 2, &round).is_none());
    let mole = spawn_mole(&mut spawner, SEC / 2, &round).expect("a mole after one second");
    assert!(!mole.lifetime.finished());
    assert_eq!(mole.lifetime.remaining_nanos(), SEC);
    assert!(spawn_mole(&mut spawner, SEC / 3, &round).is_none());
    // Several intervals in one frame still give one mole.
    assert!(spawn_mole(&mut spawner, 3 * SEC, &round).is_some());
}

#[test]
fn no_mole_after_the_round_is_over() {
    let mut spawner = MoleSpawnTimer::new_round();
    let mut round = GameTimer::new_round();
    let mut high = HighScore(0);
    tick_game_timer(&mut round, 30 * SEC, &Score(0), &mut high);
    assert!(spawn_mole(&mut spawner, 5 * SEC, &round).is_none());
    assert_eq!(spawner.0.remaining_nanos(), SEC);
}

#[test]
fn moles_go_away_after_one_second() {
    let mut moles = Moles::new();
    moles.insert(10, Mole::new());
    assert_eq!(tick_mole_lifetimes(&mut moles, SEC / 2), Vec::<u64>::new());
    moles.insert(11, Mole::new());
    assert_eq!(moles.len(), 2);
    assert_eq!(tick_mole_lifetimes(&mut moles, SEC / 2), vec![10]);
    assert!(!moles.contains(10));
    assert!(moles.contains(11));
    assert_eq!(tick_mole_lifetimes(&mut moles, SEC), vec![11]);
    assert_eq!(moles.len(), 0);
}

#[test]
fn despawn_all_clears_the_field() {
    let mut moles = Moles::new();
    moles.insert(3, Mole::new());
    moles.insert(1, Mole::new());
    moles.insert(2, Mole::new());
    assert_eq!(despawn_all_moles(&mut moles), vec![3, 1, 2]);
    assert_eq!(moles.len(), 0);
    assert_eq!(despawn_all_moles(&mut moles), Vec::<u64>::new());
}

#[test]
fn removing_a_mole() {
    let mut moles = Moles::new();
    moles.insert(4, Mole::new());
    moles.insert(5, Mole::new());
    assert_eq!(moles.position(5), Some(1));
    assert!(moles.remove(4));
    assert!(!moles.remove(4));
    assert_eq!(moles.position(5), Some(0));
    assert_eq!(moles.position(4), None);
}

fn field_of(ids: &[u64]) -> Moles {
    let mut moles = Moles::new();
    for id in ids {
        moles.insert(*id, Mole::new());
    }
    moles
}

#[test]
fn whacking_the_first_mole_hit_scores_one_point() {
    let round = GameTimer::new_round();
    let mut moles = field_of(&[1, 2, 3]);
    let mut score = Score(4);
    let whacked = handle_mole_click(true, &vec![9, 2, 3], &mut moles, &mut score, &round);
    assert_eq!(whacked, Some(2));
    assert_eq!(score.0, 5);
    assert!(!moles.contains(2));
    assert!(moles.contains(3));
    assert_eq!(moles.len(), 2);
}

#[test]
fn a_click_that_misses_changes_nothing() {
    let round = GameTimer::new_round();
    let mut moles = field_of(&[1]);
    let mut score = Score(0);
    assert_eq!(handle_mole_click(true, &vec![], &mut moles, &mut score, &round), None);
    assert_eq!(handle_mole_click(true, &vec![7], &mut moles, &mut score, &round), None);
    assert_eq!(score.0, 0);
    assert_eq!(moles.len(), 1);
}

#[test]
fn no_whack_without_a_left_press() {
    let round = GameTimer::new_round();
    let mut moles = field_of(&[1]);
    let mut score = Score(0);
    assert_eq!(handle_mole_click(false, &vec![1], &mut moles, &mut score, &round), None);
    assert_eq!(score.0, 0);
    assert!(moles.contains(1));
}

#[test]
fn no_whack_after_the_round() {
    let mut round = GameTimer::new_round();
    let mut high = HighScore(0);
    tick_game_timer(&mut round, 30 * SEC, &Score(0), &mut high);
    let mut moles = field_of(&[1]);
    let mut score = Score(3);
    assert_eq!(handle_mole_click(true, &vec![1], &mut moles, &mut score, &round), None);
    assert_eq!(score.0, 3);
    assert!(moles.contains(1));
}

#[test]
fn pressing_start_resets_the_score_and_starts_a_round() {
    let mut score = Score(12);
    let start = handle_start_button(ButtonInteraction::Pressed, &mut score).expect("a round");
    assert_eq!(score.0, 0);
    assert_eq!(start.next_state, GameState::Playing);
    assert_eq!(start.game_timer.0.remaining_nanos(), 30 * SEC);
    assert!(!start.game_timer.0.finished());
    assert_eq!(start.spawn_timer.0.remaining_nanos(), SEC);
}

#[test]
fn hovering_or_leaving_start_changes_nothing() {
    let mut score = Score(12);
    assert!(handle_start_button(ButtonInteraction::Hovered, &mut score).is_none());
    assert!(handle_start_button(ButtonInteraction::Idle, &mut score).is_none());
    assert_eq!(score.0, 12);
}

#[test]
fn defaults() {
    assert_eq!(GameState::default(), GameState::Menu);
    assert_eq!(Score::default().0, 0);
    assert_eq!(HighScore::default().0, 0);
}
