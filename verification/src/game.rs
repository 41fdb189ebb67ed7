//! What each frame of a round does: the round clock, the mole spawner and
//! clicks on moles.

use vstd::prelude::*;
use crate::constants::MOLE_LIFETIME_NANOS;
use crate::resources::{GameState, GameTimer, HighScore, MoleSpawnTimer, Score, best};
use crate::timer::{CountdownMode, TimerModel};
use crate::moles::{Mole, Moles, mole_ids};

pub use crate::moles::{despawn_all_moles, tick_mole_lifetimes};

verus! {

/// Advances the round clock by `delta_nanos`. When the round ends in this
/// tick, the high score takes the score if the score beats it, and the game
/// goes back to the menu (the returned state).
pub fn tick_game_timer(
    game_timer: &mut GameTimer,
    delta_nanos: u64,
    score: &Score,
    high_score: &mut HighScore,
) -> (next_state: Option<GameState>)
    ensures
        final(game_timer).0@ == old(game_timer).0@.ticked(delta_nanos as nat),
        next_state == (if final(game_timer).0@.just_finished() {
            Some(GameState::Menu)
        } else {
            None
        }),
        final(high_score).0 == (if final(game_timer).0@.just_finished() {
            best(old(high_score).0, score.0)
        } else {
            old(high_score).0
        }),
        final(high_score).0 >= old(high_score).0,
        final(game_timer).0@.just_finished() ==> final(high_score).0 >= score.0
            && (final(high_score).0 == old(high_score).0 || final(high_score).0 == score.0),
{
    game_timer.0.tick(delta_nanos);
    if game_timer.0.just_finished() {
        if score.0 > high_score.0 {
            high_score.0 = score.0;
        }
        Some(GameState::Menu)
    } else {
        None
    }
}

/// Advances the spawner by `delta_nanos`, unless the round is over; when the
/// spawner fires, returns a new mole (whose lifetime has just started) for
/// the engine to place.
pub fn spawn_mole(spawn_timer: &mut MoleSpawnTimer, delta_nanos: u64, game_timer: &GameTimer) -> (spawned:
    Option<Mole>)
    ensures
        game_timer.0@.finished ==> final(spawn_timer).0@ == old(spawn_timer).0@ && spawned is None,
        !game_timer.0@.finished ==> final(spawn_timer).0@ == old(spawn_timer).0@.ticked(
            delta_nanos as nat,
        ),
        !game_timer.0@.finished ==> (spawned is Some <==> final(spawn_timer).0@.just_finished()),
        spawned matches Some(m) ==> m.lifetime@ == TimerModel::fresh(
            MOLE_LIFETIME_NANOS as nat,
            CountdownMode::Once,
        ),
{
    if game_timer.0.finished() {
        return None;
    }
    spawn_timer.0.tick(delta_nanos);
    if spawn_timer.0.just_finished() {
        Some(Mole::new())
    } else {
        None
    }
}

/// The first id of `hits` that belongs to a mole of `moles`, with its
/// position in `hits`.
pub open spec fn first_hit(hits: Seq<u64>, moles: Seq<(u64, TimerModel)>) -> Option<int> {
    if exists|j: int| 0 <= j < hits.len() && mole_ids(moles).contains(#[trigger] hits[j]) {
        Some(
            choose|j: int|
                0 <= j < hits.len() && mole_ids(moles).contains(hits[j]) && forall|k: int|
                    0 <= k < j ==> !mole_ids(moles).contains(#[trigger] hits[k]),
        )
    } else {
        None
    }
}

/// The first hit is the least position in `hits` whose id belongs to a mole
/// that is up; there is none exactly when no id in `hits` is up.
pub proof fn lemma_first_hit(hits: Seq<u64>, moles: Seq<(u64, TimerModel)>)
    ensures
        first_hit(hits, moles) is None <==> forall|j: int|
            0 <= j < hits.len() ==> !mole_ids(moles).contains(#[trigger] hits[j]),
        forall|j: int|
            #![trigger hits[j]]
            0 <= j < hits.len() && mole_ids(moles).contains(hits[j]) && (forall|k: int|
                0 <= k < j ==> !mole_ids(moles).contains(#[trigger] hits[k])) ==> first_hit(hits, moles)
                == Some(j),
{
    assert forall|j: int|
        #![trigger hits[j]]
        0 <= j < hits.len() && mole_ids(moles).contains(hits[j]) && (forall|k: int|
            0 <= k < j ==> !mole_ids(moles).contains(#[trigger] hits[k])) implies first_hit(hits, moles)
        == Some(j) by {
        let jj = choose|jj: int|
            0 <= jj < hits.len() && mole_ids(moles).contains(hits[jj]) && forall|k: int|
                0 <= k < jj ==> !mole_ids(moles).contains(#[trigger] hits[k]);
        if jj < j {
            assert(!mole_ids(moles).contains(hits[jj]));
        } else if jj > j {
            assert(!mole_ids(moles).contains(hits[j]));
        }
    }
    if exists|j: int| 0 <= j < hits.len() && mole_ids(moles).contains(#[trigger] hits[j]) {
        let jj = choose|jj: int|
            0 <= jj < hits.len() && mole_ids(moles).contains(hits[jj]) && forall|k: int|
                0 <= k < jj ==> !mole_ids(moles).contains(#[trigger] hits[k]);
        lemma_least_hit_exists(hits, moles);
        assert(first_hit(hits, moles) is Some);
    }
}

/// Where some id in `hits` is up, there is a least such position.
proof fn lemma_least_hit_exists(hits: Seq<u64>, moles: Seq<(u64, TimerModel)>)
    requires
        exists|j: int| 0 <= j < hits.len() && mole_ids(moles).contains(#[trigger] hits[j]),
    ensures
        exists|jj: int|
            0 <= jj < hits.len() && mole_ids(moles).contains(hits[jj]) && forall|k: int|
                0 <= k < jj ==> !mole_ids(moles).contains(#[trigger] hits[k]),
    decreases hits.len(),
{
    let j = choose|j: int| 0 <= j < hits.len() && mole_ids(moles).contains(#[trigger] hits[j]);
    let prev = hits.drop_last();
    if exists|i: int| 0 <= i < prev.len() && mole_ids(moles).contains(#[trigger] prev[i]) {
        lemma_least_hit_exists(prev, moles);
        let jj = choose|jj: int|
            0 <= jj < prev.len() && mole_ids(moles).contains(prev[jj]) && forall|k: int|
                0 <= k < jj ==> !mole_ids(moles).contains(#[trigger] prev[k]);
        assert(hits[jj] == prev[jj]);
        assert forall|k: int| 0 <= k < jj implies !mole_ids(moles).contains(#[trigger] hits[k]) by {
            assert(hits[k] == prev[k]);
        }
    } else {
        let last = hits.len() - 1;
        if j < last {
            assert(prev[j] == hits[j]);
        }
        assert forall|k: int| 0 <= k < last implies !mole_ids(moles).contains(#[trigger] hits[k]) by {
            assert(hits[k] == prev[k]);
        }
    }
}

/// Handles a click. `hits` lists the moles under the cursor, in the order
/// the engine walks them (empty when the cursor is off the window). When the
/// round is on and the left button was just pressed, the first of them that
/// is up is whacked: it goes away and the score grows by one. Returns the
/// whacked mole's id.
pub fn handle_mole_click(
    left_just_pressed: bool,
    hits: &Vec<u64>,
    moles: &mut Moles,
    score: &mut Score,
    game_timer: &GameTimer,
) -> (whacked: Option<u64>)
    requires
        old(score).0 < u32::MAX,
    ensures
        game_timer.0@.finished || !left_just_pressed ==> whacked is None,
        whacked is None ==> final(moles)@ == old(moles)@ && final(score).0 == old(score).0,
        !game_timer.0@.finished && left_just_pressed ==> match first_hit(hits@, old(moles)@) {
            None => whacked is None,
            Some(j) => whacked == Some(hits@[j]),
        },
        !game_timer.0@.finished && left_just_pressed ==> forall|j: int|
            #![trigger hits@[j]]
            0 <= j < hits@.len() && mole_ids(old(moles)@).contains(hits@[j]) && (forall|k: int|
                0 <= k < j ==> !mole_ids(old(moles)@).contains(#[trigger] hits@[k])) ==> whacked == Some(
                hits@[j],
            ),
        !game_timer.0@.finished && left_just_pressed && whacked is None ==> forall|j: int|
            0 <= j < hits@.len() ==> !mole_ids(old(moles)@).contains(#[trigger] hits@[j]),
        whacked matches Some(id) ==> final(score).0 == old(score).0 + 1 && exists|k: int|
            0 <= k < old(moles)@.len() && old(moles)@[k].0 == id && final(moles)@ == old(
                moles,
            )@.remove(k),
{
    if game_timer.0.finished() {
        return None;
    }
    if !left_just_pressed {
        return None;
    }
    let ghost before = moles@;
    proof {
        lemma_first_hit(hits@, before);
    }
    let n = hits.len();
    let mut j: usize = 0;
    while j < n
        invariant
            n == hits@.len(),
            j <= n,
            moles@ == before,
            before == old(moles)@,
            score.0 == old(score).0,
            old(score).0 < u32::MAX,
            !game_timer.0@.finished,
            left_just_pressed,
            forall|k: int| 0 <= k < j ==> !mole_ids(before).contains(#[trigger] hits@[k]),
        decreases n - j,
    {
        let id = hits[j];
        if moles.remove(id) {
            score.0 = score.0 + 1;
            proof {
                let fh = first_hit(hits@, before);
                assert(mole_ids(before).contains(hits@[j as int]));
                assert(0 <= j < hits@.len() && mole_ids(before).contains(hits@[j as int]) && forall|k: int|
                    0 <= k < j ==> !mole_ids(before).contains(#[trigger] hits@[k]));
                assert(fh is Some);
                let jj = fh->0;
                assert(0 <= jj < hits@.len() && mole_ids(before).contains(hits@[jj]) && forall|k: int|
                    0 <= k < jj ==> !mole_ids(before).contains(#[trigger] hits@[k]));
                if jj < j {
                } else if jj > j {
                    assert(!mole_ids(before).contains(hits@[j as int]));
                }
            }
            return Some(id);
        }
        j = j + 1;
    }
    None
}

} // verus!
