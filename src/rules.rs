//! The rules of the game as mathematics: which roll a frame accepts, what a
//! frame asks for next, and what each frame and the whole game score.
//!
//! A frame is modelled by the sequence of its rolls; a game by the sequence of
//! its frames, where the frame at index 9 is the last one and all others are
//! regular frames.
use vstd::prelude::*;
use crate::roll::{draw_pins, Draw, NextAction};

verus! {

/// Number of frames in a complete game.
pub const FRAMES_PER_GAME: usize = 10;

/// Pins that a roll counts for on its own.
pub open spec fn roll_pins(d: Draw) -> int {
    draw_pins(d) as int
}

/// A roll that leaves pins standing: fewer than ten pins, or a foul.
pub open spec fn is_open_roll(d: Draw) -> bool {
    match d {
        Draw::Open(x) => x <= 9,
        Draw::Split(x) => x <= 9,
        Draw::Fool => true,
        _ => false,
    }
}

/// A roll that may open a fresh rack of pins.
pub open spec fn is_first_roll(d: Draw) -> bool {
    is_open_roll(d) || d is Strike
}

/// A roll that may follow an open first roll on the same rack.
pub open spec fn is_second_roll(d: Draw) -> bool {
    is_open_roll(d) || d is Spare
}

// ---------------------------------------------------------------- frames 1-9

/// A regular frame is done after a strike, or after two rolls.
pub open spec fn regular_complete(rolls: Seq<Draw>) -> bool {
    rolls.len() >= 2 || (rolls.len() == 1 && rolls[0] is Strike)
}

/// The roll sequences that a regular frame can reach.
pub open spec fn regular_wf(rolls: Seq<Draw>) -> bool {
    &&& rolls.len() <= 2
    &&& rolls.len() >= 1 ==> is_first_roll(rolls[0])
    &&& rolls.len() == 2 ==> is_open_roll(rolls[0]) && is_second_roll(rolls[1])
}

/// Whether a regular frame holding `rolls` takes `d` as its next roll.
pub open spec fn regular_accepts(rolls: Seq<Draw>, d: Draw) -> bool {
    if rolls.len() == 0 {
        is_first_roll(d)
    } else if regular_complete(rolls) {
        false
    } else {
        is_second_roll(d)
    }
}

// ---------------------------------------------------------------- frame 10

/// The last frame's first two rolls earn a third: a strike, or a spare.
pub open spec fn tenth_owes_bonus(rolls: Seq<Draw>) -> bool {
    rolls.len() >= 2 && (rolls[0] is Strike || rolls[1] is Spare)
}

/// The last frame is done after three rolls, or after two that earn no bonus.
pub open spec fn tenth_complete(rolls: Seq<Draw>) -> bool {
    rolls.len() >= 3 || (rolls.len() == 2 && !tenth_owes_bonus(rolls))
}

/// The roll sequences that the last frame can reach.
pub open spec fn tenth_wf(rolls: Seq<Draw>) -> bool {
    &&& rolls.len() <= 3
    &&& rolls.len() >= 1 ==> is_first_roll(rolls[0])
    &&& rolls.len() >= 2 ==> (if rolls[0] is Strike {
        is_first_roll(rolls[1])
    } else {
        is_second_roll(rolls[1])
    })
    &&& rolls.len() == 3 ==> tenth_owes_bonus(rolls) && is_first_roll(rolls[2])
}

/// Whether the last frame holding `rolls` takes `d` as its next roll.
pub open spec fn tenth_accepts(rolls: Seq<Draw>, d: Draw) -> bool {
    if rolls.len() == 0 {
        is_first_roll(d)
    } else if rolls.len() == 1 {
        if rolls[0] is Strike {
            is_first_roll(d)
        } else {
            is_second_roll(d)
        }
    } else if rolls.len() == 2 {
        tenth_owes_bonus(rolls) && is_first_roll(d)
    } else {
        false
    }
}

// ---------------------------------------------------------------- either kind

/// The roll sequences that a frame of the given kind can reach.
pub open spec fn frame_wf(tenth: bool, rolls: Seq<Draw>) -> bool {
    if tenth {
        tenth_wf(rolls)
    } else {
        regular_wf(rolls)
    }
}

/// Whether a frame of the given kind takes no more rolls.
pub open spec fn frame_complete(tenth: bool, rolls: Seq<Draw>) -> bool {
    if tenth {
        tenth_complete(rolls)
    } else {
        regular_complete(rolls)
    }
}

/// Whether a frame of the given kind takes `d` as its next roll.
pub open spec fn frame_accepts(tenth: bool, rolls: Seq<Draw>, d: Draw) -> bool {
    if tenth {
        tenth_accepts(rolls, d)
    } else {
        regular_accepts(rolls, d)
    }
}

/// What a frame signals once it holds `rolls`.
pub open spec fn next_action(tenth: bool, rolls: Seq<Draw>) -> NextAction {
    if !frame_complete(tenth, rolls) {
        NextAction::NextDraw
    } else if tenth {
        NextAction::Finish
    } else {
        NextAction::NextFrame
    }
}

/// Pins of the first `n` rolls of a frame (`n` is 1 or 2), as far as they
/// were rolled; a spare makes the pair worth ten.
pub open spec fn first_rolls_total(rolls: Seq<Draw>, n: int) -> int {
    let first = if rolls.len() > 0 {
        roll_pins(rolls[0])
    } else {
        0
    };
    if n < 2 || rolls.len() < 2 {
        first
    } else if rolls[1] is Spare {
        10
    } else {
        first + roll_pins(rolls[1])
    }
}

// ---------------------------------------------------------------- scores

/// Bonus of a strike, drawn from the frames after it: the next two rolls.
/// The flag tells whether a roll is still missing.
pub open spec fn strike_bonus(later: Seq<Seq<Draw>>) -> (int, bool) {
    if later.len() == 0 {
        (0, true)
    } else if later[0].len() >= 2 {
        (first_rolls_total(later[0], 2), false)
    } else if later.len() == 1 {
        (first_rolls_total(later[0], 2), true)
    } else {
        (first_rolls_total(later[0], 2) + first_rolls_total(later[1], 1), later[1].len() < 1)
    }
}

/// Bonus of a spare, drawn from the frames after it: the next roll.
pub open spec fn spare_bonus(later: Seq<Seq<Draw>>) -> (int, bool) {
    if later.len() == 0 {
        (0, true)
    } else {
        (first_rolls_total(later[0], 1), later[0].len() < 1)
    }
}

/// Score of a regular frame followed by the frames `later`, and whether it
/// may still grow.
pub open spec fn regular_score(rolls: Seq<Draw>, later: Seq<Seq<Draw>>) -> (int, bool) {
    if rolls.len() == 0 {
        (0, true)
    } else if rolls[0] is Strike {
        (10 + strike_bonus(later).0, strike_bonus(later).1)
    } else if rolls.len() == 1 {
        (roll_pins(rolls[0]), true)
    } else if rolls[1] is Spare {
        (10 + spare_bonus(later).0, spare_bonus(later).1)
    } else {
        (roll_pins(rolls[0]) + roll_pins(rolls[1]), false)
    }
}

/// Score of the last frame, bonus rolls included, and whether it may still
/// grow.
pub open spec fn tenth_score(rolls: Seq<Draw>) -> (int, bool) {
    let third = if rolls.len() >= 3 {
        roll_pins(rolls[2])
    } else {
        0
    };
    (first_rolls_total(rolls, 2) + third, !tenth_complete(rolls))
}

/// Score of a frame of the given kind followed by the frames `later`.
pub open spec fn frame_score(tenth: bool, rolls: Seq<Draw>, later: Seq<Seq<Draw>>) -> (int, bool) {
    if tenth {
        tenth_score(rolls)
    } else {
        regular_score(rolls, later)
    }
}

/// The frames that follow index `pos`.
pub open spec fn later_frames(frames: Seq<Seq<Draw>>, pos: int) -> Seq<Seq<Draw>> {
    if 0 <= pos && pos + 1 < frames.len() {
        frames.subrange(pos + 1, frames.len() as int)
    } else {
        Seq::empty()
    }
}

/// Score of the frame at index `i` of a game.
pub open spec fn frame_in_game(frames: Seq<Seq<Draw>>, i: int) -> (int, bool) {
    frame_score(i == FRAMES_PER_GAME - 1, frames[i], later_frames(frames, i))
}

/// Sum of the scores of the first `k` frames of a game.
pub open spec fn game_total_upto(frames: Seq<Seq<Draw>>, k: int) -> int
    decreases k,
{
    if k <= 0 {
        0
    } else {
        game_total_upto(frames, k - 1) + frame_in_game(frames, k - 1).0
    }
}

/// Whether one of the first `k` frames of a game may still grow.
pub open spec fn game_pending_upto(frames: Seq<Seq<Draw>>, k: int) -> bool
    decreases k,
{
    if k <= 0 {
        false
    } else {
        game_pending_upto(frames, k - 1) || frame_in_game(frames, k - 1).1
    }
}

/// Total score of a game.
pub open spec fn game_total(frames: Seq<Seq<Draw>>) -> int {
    game_total_upto(frames, frames.len() as int)
}

/// A game's score may still grow while it lacks frames or a frame may grow.
pub open spec fn game_pending(frames: Seq<Seq<Draw>>) -> bool {
    frames.len() < FRAMES_PER_GAME || game_pending_upto(frames, frames.len() as int)
}

/// The frame at index `i` is reachable for the kind that its index gives it.
pub open spec fn frame_wf_at(frames: Seq<Seq<Draw>>, i: int) -> bool {
    frame_wf(i == FRAMES_PER_GAME - 1, frames[i])
}

/// The frame sequences that a game can reach: at most ten frames, each
/// reachable for its kind.
pub open spec fn game_wf(frames: Seq<Seq<Draw>>) -> bool {
    &&& frames.len() <= FRAMES_PER_GAME
    &&& forall|i: int| 0 <= i < frames.len() ==> #[trigger] frame_wf_at(frames, i)
}

/// Every roll of a frame counts for ten pins at most.
pub open spec fn pins_bounded(rolls: Seq<Draw>) -> bool {
    forall|i: int| 0 <= i < rolls.len() ==> roll_pins(#[trigger] rolls[i]) <= 10
}

/// A reachable frame holds no roll worth more than ten pins.
pub proof fn lemma_frame_pins_bounded(tenth: bool, rolls: Seq<Draw>)
    requires
        frame_wf(tenth, rolls),
    ensures
        pins_bounded(rolls),
{
}

/// Bounds on the pins of a frame's first rolls.
pub proof fn lemma_first_rolls_bounds(rolls: Seq<Draw>)
    requires
        pins_bounded(rolls),
    ensures
        0 <= first_rolls_total(rolls, 1) <= 10,
        0 <= first_rolls_total(rolls, 2) <= 20,
        rolls.len() < 2 ==> first_rolls_total(rolls, 2) <= 10,
{
    if rolls.len() > 0 {
        assert(roll_pins(rolls[0]) <= 10);
    }
    if rolls.len() > 1 {
        assert(roll_pins(rolls[1]) <= 10);
    }
}

/// Every frame of a reachable game scores between nothing and thirty pins.
pub proof fn lemma_frame_in_game_bounds(frames: Seq<Seq<Draw>>, i: int)
    requires
        game_wf(frames),
        0 <= i < frames.len(),
    ensures
        0 <= frame_in_game(frames, i).0 <= 30,
{
    assert(frame_wf_at(frames, i));
    lemma_frame_pins_bounded(i == FRAMES_PER_GAME - 1, frames[i]);
    lemma_first_rolls_bounds(frames[i]);
    let later = later_frames(frames, i);
    if later.len() > 0 {
        assert(later[0] == frames[i + 1]);
        assert(frame_wf_at(frames, i + 1));
        lemma_frame_pins_bounded(i + 1 == FRAMES_PER_GAME - 1, later[0]);
        lemma_first_rolls_bounds(later[0]);
    }
    if later.len() > 1 {
        assert(later[1] == frames[i + 2]);
        assert(frame_wf_at(frames, i + 2));
        lemma_frame_pins_bounded(i + 2 == FRAMES_PER_GAME - 1, later[1]);
        lemma_first_rolls_bounds(later[1]);
    }
    if frames[i].len() > 2 {
        assert(roll_pins(frames[i][2]) <= 10);
    }
}

} // verus!
