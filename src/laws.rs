//! Properties of the scoring rules that hold across calls and inputs.
use vstd::prelude::*;
use crate::roll::{Draw, NextAction};
use crate::rules::{
    frame_accepts, frame_in_game, frame_wf, game_pending, game_pending_upto,
    game_total, game_total_upto, game_wf, later_frames, next_action, regular_score, roll_pins,
    FRAMES_PER_GAME,
};

verus! {

/// A full game in which every roll knocks down `k` pins.
pub open spec fn constant_open_game(k: u32) -> Seq<Seq<Draw>> {
    Seq::new(FRAMES_PER_GAME as nat, |i: int| seq![Draw::Open(k), Draw::Open(k)])
}

proof fn lemma_constant_open_prefix(k: u32, j: int)
    requires
        k <= 5,
        0 <= j <= FRAMES_PER_GAME,
    ensures
        game_total_upto(constant_open_game(k), j) == 2 * k * j,
        !game_pending_upto(constant_open_game(k), j),
    decreases j,
{
    if j > 0 {
        lemma_constant_open_prefix(k, j - 1);
        let g = constant_open_game(k);
        assert(g[j - 1] == seq![Draw::Open(k), Draw::Open(k)]);
        assert(frame_in_game(g, j - 1) == (2 * k as int, false));
        assert(2 * k * (j - 1) + 2 * k == 2 * k * j) by (nonlinear_arith);
    }
}

/// A full game of twenty rolls of `k` pins each scores twenty times `k`,
/// and that score is final.
pub proof fn law_constant_open_game(k: u32)
    requires
        k <= 5,
    ensures
        game_total(constant_open_game(k)) == 20 * k,
        !game_pending(constant_open_game(k)),
{
    lemma_constant_open_prefix(k, FRAMES_PER_GAME as int);
}

/// A strike followed by a second strike is worth twenty pins plus the first
/// roll of the frame after those two; it stays in progress, at twenty, until
/// that roll exists, and is final from then on.
pub proof fn law_strike_after_strike(later: Seq<Seq<Draw>>)
    requires
        later.len() >= 1,
        later[0] == seq![Draw::Strike],
    ensures
        regular_score(seq![Draw::Strike], later) == (if later.len() >= 2 && later[1].len() >= 1 {
            (20 + roll_pins(later[1][0]), false)
        } else {
            (20, true)
        }),
{
}

/// The score of a frame in a game depends on that frame and the two after it
/// alone: changing any other frame leaves it as it is.
pub proof fn law_score_looks_two_frames_ahead(a: Seq<Seq<Draw>>, b: Seq<Seq<Draw>>, i: int)
    requires
        a.len() == b.len(),
        0 <= i < a.len(),
        forall|j: int| i <= j <= i + 2 && j < a.len() ==> a[j] == b[j],
    ensures
        frame_in_game(a, i) == frame_in_game(b, i),
{
    let la = later_frames(a, i);
    let lb = later_frames(b, i);
    if la.len() > 0 {
        assert(la[0] == a[i + 1] && lb[0] == b[i + 1]);
    }
    if la.len() > 1 {
        assert(la[1] == a[i + 2] && lb[1] == b[i + 2]);
    }
}

/// Once a frame has signalled that it is complete, it takes no further roll.
pub proof fn law_no_roll_after_completion(tenth: bool, rolls: Seq<Draw>, d: Draw, e: Draw)
    requires
        frame_wf(tenth, rolls),
        frame_accepts(tenth, rolls, d),
        next_action(tenth, rolls.push(d)) != NextAction::NextDraw,
    ensures
        !frame_accepts(tenth, rolls.push(d), e),
{
}

/// A reachable game holds ten frames at most: once ten exist, no further
/// frame gives a reachable game, so an eleventh is refused.
pub proof fn law_at_most_ten_frames(frames: Seq<Seq<Draw>>, extra: Seq<Draw>)
    requires
        game_wf(frames),
    ensures
        frames.len() <= FRAMES_PER_GAME,
        frames.len() == FRAMES_PER_GAME ==> !game_wf(frames.push(extra)),
{
}

} // verus!
