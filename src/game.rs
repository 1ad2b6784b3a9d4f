//! Frames and the game that owns them.
use vstd::prelude::*;
use crate::roll::{Draw, NextAction, Pins};
use crate::rules::{
    first_rolls_total, frame_accepts, frame_score, frame_wf, frame_wf_at, game_pending,
    game_pending_upto, game_total, game_total_upto, game_wf, is_open_roll, later_frames,
    lemma_first_rolls_bounds, lemma_frame_in_game_bounds, lemma_frame_pins_bounded, next_action,
    pins_bounded, regular_accepts, regular_score, regular_wf, roll_pins, tenth_accepts,
    tenth_score, tenth_wf, FRAMES_PER_GAME,
};

verus! {

/// Whether a roll leaves pins standing.
fn open_roll(d: &Draw) -> (r: bool)
    ensures
        r == is_open_roll(*d),
{
    match d {
        Draw::Open(x) => *x <= 9,
        Draw::Split(x) => *x <= 9,
        Draw::Fool => true,
        _ => false,
    }
}

/// Pins of the first `n` rolls recorded in `draws`, and whether fewer than
/// `n` were recorded.
fn sum_first_draws(draws: &Vec<Draw>, n: usize) -> (r: Pins)
    requires
        pins_bounded(draws@),
        n == 1 || n == 2,
    ensures
        r.total() == first_rolls_total(draws@, n as int),
        r.is_final() == (draws@.len() >= n),
{
    proof {
        lemma_first_rolls_bounds(draws@);
    }
    let mut score: u32 = 0;
    if draws.len() > 0 {
        score = u32::from(draws[0]);
    }
    if n == 1 || draws.len() < 2 {
        Pins::from_parts(score, draws.len() < n)
    } else {
        match draws[1] {
            Draw::Spare => Pins::FinalPins(10),
            second => {
                assert(roll_pins(draws@[1]) <= 10);
                Pins::FinalPins(score + u32::from(second))
            },
        }
    }
}

/// One of the first nine frames: one strike, or two rolls.
pub struct RegularFrame {
    draws: Vec<Draw>,
}

/// The last frame: two rolls, or three after a strike or a spare.
pub struct TenthFrame {
    draws: Vec<Draw>,
}

impl View for RegularFrame {
    type V = Seq<Draw>;

    closed spec fn view(&self) -> Seq<Draw> {
        self.draws@
    }
}

impl View for TenthFrame {
    type V = Seq<Draw>;

    closed spec fn view(&self) -> Seq<Draw> {
        self.draws@
    }
}

/// The frames after the one being scored, as the scoring context shows them.
pub open spec fn context_later(pos: Option<(usize, &Game)>) -> Seq<Seq<Draw>> {
    match pos {
        Some((p, game)) => later_frames(game@, p as int),
        None => Seq::empty(),
    }
}

/// A scoring context, if any, refers to a reachable game.
pub open spec fn context_wf(pos: Option<(usize, &Game)>) -> bool {
    match pos {
        Some((_, game)) => game.wf(),
        None => true,
    }
}

impl RegularFrame {
    /// An empty frame.
    pub fn new() -> (r: RegularFrame)
        ensures
            r@ == Seq::<Draw>::empty(),
    {
        RegularFrame { draws: Vec::with_capacity(2) }
    }

    /// Records a roll and tells what the frame expects next.
    pub fn set_draw(&mut self, draw: Draw) -> (r: NextAction)
        requires
            regular_wf(old(self)@),
            regular_accepts(old(self)@, draw),
        ensures
            final(self)@ == old(self)@.push(draw),
            regular_wf(final(self)@),
            r == next_action(false, final(self)@),
    {
        let next = if self.draws.len() == 0 && draw != Draw::Strike {
            NextAction::NextDraw
        } else {
            NextAction::NextFrame
        };
        self.draws.push(draw);
        next
    }

    /// Pins of this frame's first `n` rolls, in progress while fewer were
    /// recorded.
    pub fn sum_n_draws(&self, n: usize) -> (r: Pins)
        requires
            regular_wf(self@),
            n == 1 || n == 2,
        ensures
            r.total() == first_rolls_total(self@, n as int),
            r.is_final() == (self@.len() >= n),
    {
        proof {
            lemma_frame_pins_bounded(false, self@);
        }
        sum_first_draws(&self.draws, n)
    }

    /// Score of this frame; a strike or spare bonus is drawn from the frames
    /// after it when the context gives them.
    pub fn score(&self, pos: Option<(usize, &Game)>) -> (r: Pins)
        requires
            regular_wf(self@),
            context_wf(pos),
        ensures
            (r.total(), !r.is_final()) == regular_score(self@, context_later(pos)),
    {
        let len = self.draws.len();
        if len == 0 {
            return Pins::InprogressPins(0);
        }
        match self.draws[0] {
            Draw::Strike => {
                let mut score: u32 = 10;
                let mut in_progress = true;
                if let Some((p, game)) = pos {
                    let n = game.frames.len();
                    if p < n && p + 1 < n {
                        proof {
                            game.lemma_later_frames(p as int);
                        }
                        match game.frames[p + 1].sum_n_draws(2) {
                            Pins::InprogressPins(x) => {
                                score = score + x;
                            },
                            Pins::FinalPins(x) => {
                                score = score + x;
                                in_progress = false;
                            },
                        }
                        if in_progress && p + 2 < n {
                            match game.frames[p + 2].sum_n_draws(1) {
                                Pins::InprogressPins(x) => {
                                    score = score + x;
                                },
                                Pins::FinalPins(x) => {
                                    score = score + x;
                                    in_progress = false;
                                },
                            }
                        }
                    }
                }
                Pins::from_parts(score, in_progress)
            },
            first => {
                let first_pins = u32::from(first);
                if len == 1 {
                    return Pins::InprogressPins(first_pins);
                }
                match self.draws[1] {
                    Draw::Spare => {
                        let mut score: u32 = 10;
                        let mut in_progress = true;
                        if let Some((p, game)) = pos {
                            let n = game.frames.len();
                            if p < n && p + 1 < n {
                                proof {
                                    game.lemma_later_frames(p as int);
                                }
                                match game.frames[p + 1].sum_n_draws(1) {
                                    Pins::InprogressPins(x) => {
                                        score = score + x;
                                    },
                                    Pins::FinalPins(x) => {
                                        score = score + x;
                                        in_progress = false;
                                    },
                                }
                            }
                        }
                        Pins::from_parts(score, in_progress)
                    },
                    second => Pins::FinalPins(first_pins + u32::from(second)),
                }
            },
        }
    }
}

impl TenthFrame {
    /// An empty frame.
    pub fn new() -> (r: TenthFrame)
        ensures
            r@ == Seq::<Draw>::empty(),
    {
        TenthFrame { draws: Vec::with_capacity(3) }
    }

    /// Records a roll and tells whether the game goes on.
    pub fn set_draw(&mut self, draw: Draw) -> (r: NextAction)
        requires
            tenth_wf(old(self)@),
            tenth_accepts(old(self)@, draw),
        ensures
            final(self)@ == old(self)@.push(draw),
            tenth_wf(final(self)@),
            r == next_action(true, final(self)@),
    {
        let len = self.draws.len();
        let next = if len == 0 {
            NextAction::NextDraw
        } else if len == 1 {
            if self.draws[0] == Draw::Strike || draw == Draw::Spare {
                NextAction::NextDraw
            } else {
                NextAction::Finish
            }
        } else {
            NextAction::Finish
        };
        self.draws.push(draw);
        next
    }

    /// Pins of this frame's first `n` rolls, in progress while fewer were
    /// recorded.
    pub fn sum_n_draws(&self, n: usize) -> (r: Pins)
        requires
            tenth_wf(self@),
            n == 1 || n == 2,
        ensures
            r.total() == first_rolls_total(self@, n as int),
            r.is_final() == (self@.len() >= n),
    {
        proof {
            lemma_frame_pins_bounded(true, self@);
        }
        sum_first_draws(&self.draws, n)
    }

    /// Score of this frame, its own bonus rolls included; being the last
    /// frame, it has nothing to draw from the context.
    pub fn score(&self, _pos: Option<(usize, &Game)>) -> (r: Pins)
        requires
            tenth_wf(self@),
        ensures
            (r.total(), !r.is_final()) == tenth_score(self@),
    {
        proof {
            lemma_frame_pins_bounded(true, self@);
            lemma_first_rolls_bounds(self@);
        }
        let len = self.draws.len();
        let (mut score, done_after_two) = match sum_first_draws(&self.draws, 2) {
            Pins::InprogressPins(x) => (x, false),
            Pins::FinalPins(x) => (x, !(self.draws[0] == Draw::Strike || self.draws[1] == Draw::Spare)),
        };
        if len >= 3 {
            assert(roll_pins(self@[2]) <= 10);
            score = score + u32::from(self.draws[2]);
        }
        Pins::from_parts(score, !(len >= 3 || done_after_two))
    }
}

/// A frame of either kind, as the game holds it.
pub enum Frame {
    Regular(RegularFrame),
    Tenth(TenthFrame),
}

impl View for Frame {
    type V = Seq<Draw>;

    open spec fn view(&self) -> Seq<Draw> {
        match self {
            Frame::Regular(f) => f@,
            Frame::Tenth(f) => f@,
        }
    }
}

impl Frame {
    /// Whether this is the last frame of a game.
    pub open spec fn is_tenth(&self) -> bool {
        self is Tenth
    }

    /// The frame holds rolls that its kind can reach.
    pub open spec fn wf(&self) -> bool {
        frame_wf(self.is_tenth(), self@)
    }

    /// Whether the frame takes `draw` as its next roll.
    pub fn accepts(&self, draw: &Draw) -> (r: bool)
        requires
            self.wf(),
        ensures
            r == frame_accepts(self.is_tenth(), self@, *draw),
    {
        let first_roll = open_roll(draw) || *draw == Draw::Strike;
        let second_roll = open_roll(draw) || *draw == Draw::Spare;
        match self {
            Frame::Regular(f) => {
                let len = f.draws.len();
                if len == 0 {
                    first_roll
                } else if len >= 2 || f.draws[0] == Draw::Strike {
                    false
                } else {
                    second_roll
                }
            },
            Frame::Tenth(f) => {
                let len = f.draws.len();
                if len == 0 {
                    first_roll
                } else if len == 1 {
                    if f.draws[0] == Draw::Strike {
                        first_roll
                    } else {
                        second_roll
                    }
                } else if len == 2 {
                    (f.draws[0] == Draw::Strike || f.draws[1] == Draw::Spare) && first_roll
                } else {
                    false
                }
            },
        }
    }

    /// Records a roll and tells what comes next.
    pub fn set_draw(&mut self, draw: Draw) -> (r: NextAction)
        requires
            old(self).wf(),
            frame_accepts(old(self).is_tenth(), old(self)@, draw),
        ensures
            final(self).is_tenth() == old(self).is_tenth(),
            final(self)@ == old(self)@.push(draw),
            final(self).wf(),
            r == next_action(old(self).is_tenth(), final(self)@),
    {
        match self {
            Frame::Regular(f) => f.set_draw(draw),
            Frame::Tenth(f) => f.set_draw(draw),
        }
    }

    /// Pins of this frame's first `n` rolls, in progress while fewer were
    /// recorded. Looks at no other frame.
    pub fn sum_n_draws(&self, n: usize) -> (r: Pins)
        requires
            self.wf(),
            n == 1 || n == 2,
        ensures
            r.total() == first_rolls_total(self@, n as int),
            r.is_final() == (self@.len() >= n),
    {
        match self {
            Frame::Regular(f) => f.sum_n_draws(n),
            Frame::Tenth(f) => f.sum_n_draws(n),
        }
    }

    /// Score of this frame, bonuses drawn from the context when one is given.
    pub fn score(&self, pos: Option<(usize, &Game)>) -> (r: Pins)
        requires
            self.wf(),
            context_wf(pos),
        ensures
            (r.total(), !r.is_final()) == frame_score(self.is_tenth(), self@, context_later(pos)),
    {
        match self {
            Frame::Regular(f) => f.score(pos),
            Frame::Tenth(f) => f.score(pos),
        }
    }
}

/// A game: up to ten frames, created one at a time.
pub struct Game {
    frames: Vec<Frame>,
}

impl View for Game {
    type V = Seq<Seq<Draw>>;

    closed spec fn view(&self) -> Seq<Seq<Draw>> {
        frames_view(self.frames@)
    }
}

spec fn frames_view(fs: Seq<Frame>) -> Seq<Seq<Draw>> {
    fs.map_values(|f: Frame| f@)
}

spec fn frames_wf(fs: Seq<Frame>) -> bool {
    &&& game_wf(frames_view(fs))
    &&& forall|i: int|
        0 <= i < fs.len() ==> (#[trigger] fs[i]).is_tenth() == (i == FRAMES_PER_GAME - 1)
}

/// Replacing the newest frame by one of the same kind that is reachable keeps
/// the frames reachable.
proof fn lemma_replace_last(fs: Seq<Frame>, f: Frame)
    requires
        fs.len() > 0,
        frames_wf(fs.drop_last()),
        fs.len() <= FRAMES_PER_GAME,
        f.wf(),
        f.is_tenth() == (fs.len() - 1 == FRAMES_PER_GAME - 1),
    ensures
        frames_wf(fs.update(fs.len() - 1, f)),
{
    let gs = fs.update(fs.len() - 1, f);
    let v = frames_view(gs);
    let u = frames_view(fs.drop_last());
    assert forall|i: int| 0 <= i < v.len() implies #[trigger] frame_wf_at(v, i) by {
        if i < fs.len() - 1 {
            assert(frame_wf_at(u, i));
            assert(gs[i] == fs.drop_last()[i]);
        }
    }
    assert forall|i: int| 0 <= i < gs.len() implies (#[trigger] gs[i]).is_tenth() == (i
        == FRAMES_PER_GAME - 1) by {
        if i < fs.len() - 1 {
            assert(gs[i] == fs.drop_last()[i]);
        }
    }
}

impl Game {
    /// The frames are reachable, and the last of ten is the only one of the
    /// last kind.
    pub closed spec fn wf(&self) -> bool {
        frames_wf(self.frames@)
    }

    proof fn lemma_frame_wf(&self, i: int)
        requires
            self.wf(),
            0 <= i < self@.len(),
        ensures
            self.frames@[i].wf(),
            self.frames@[i]@ == self@[i],
            self.frames@.len() == self@.len(),
    {
        assert(frame_wf_at(self@, i));
        assert(self.frames@[i].is_tenth() == (i == FRAMES_PER_GAME - 1));
    }

    proof fn lemma_later_frames(&self, p: int)
        requires
            self.wf(),
            0 <= p,
            p + 1 < self@.len(),
        ensures
            self.frames@.len() == self@.len(),
            later_frames(self@, p)[0] == self.frames@[p + 1]@,
            self.frames@[p + 1].wf(),
            0 <= first_rolls_total(self@[p + 1], 1) <= 10,
            0 <= first_rolls_total(self@[p + 1], 2) <= 20,
            self@[p + 1].len() < 2 ==> first_rolls_total(self@[p + 1], 2) <= 10,
            p + 2 < self@.len() ==> {
                &&& later_frames(self@, p).len() > 1
                &&& later_frames(self@, p)[1] == self.frames@[p + 2]@
                &&& self.frames@[p + 2].wf()
                &&& 0 <= first_rolls_total(self@[p + 2], 1) <= 10
            },
    {
        self.lemma_frame_wf(p + 1);
        lemma_frame_pins_bounded(self.frames@[p + 1].is_tenth(), self@[p + 1]);
        lemma_first_rolls_bounds(self@[p + 1]);
        if p + 2 < self@.len() {
            self.lemma_frame_wf(p + 2);
            lemma_frame_pins_bounded(self.frames@[p + 2].is_tenth(), self@[p + 2]);
            lemma_first_rolls_bounds(self@[p + 2]);
        }
    }
}

impl Game {
    /// A game with no frame yet.
    pub fn new() -> (r: Game)
        ensures
            r.wf(),
            r@ == Seq::<Seq<Draw>>::empty(),
    {
        let r = Game { frames: Vec::with_capacity(FRAMES_PER_GAME) };
        assert(r@ =~= Seq::<Seq<Draw>>::empty());
        r
    }

    /// Number of frames created so far.
    pub fn frame_count(&self) -> (r: usize)
        requires
            self.wf(),
        ensures
            r == self@.len(),
    {
        self.frames.len()
    }

    /// Appends the next frame, empty and of the kind its position calls for,
    /// and hands it out to take rolls. A game has ten frames at most.
    pub fn next_frame(&mut self) -> (r: &mut Frame)
        requires
            old(self).wf(),
            old(self)@.len() < FRAMES_PER_GAME,
        ensures
            r@ == Seq::<Draw>::empty(),
            r.is_tenth() == (old(self)@.len() == FRAMES_PER_GAME - 1),
            final(self)@ == old(self)@.push(final(r)@),
            final(r).wf() && final(r).is_tenth() == r.is_tenth() ==> final(self).wf(),
    {
        if self.frames.len() < FRAMES_PER_GAME - 1 {
            self.frames.push(Frame::Regular(RegularFrame::new()));
        } else {
            self.frames.push(Frame::Tenth(TenthFrame::new()));
        }
        let last = self.frames.len() - 1;
        proof {
            assert(self.frames@.drop_last() == old(self).frames@);
            assert forall|f: Frame|
                f.wf() && f.is_tenth() == (last == FRAMES_PER_GAME - 1) implies #[trigger] frames_wf(
                self.frames@.update(last as int, f)) by {
                lemma_replace_last(self.frames@, f);
            }
        }
        &mut self.frames[last]
    }

    /// Score of the game: the sum of every frame's score, final only when all
    /// ten frames exist and none may still grow.
    pub fn score(&self) -> (r: Pins)
        requires
            self.wf(),
        ensures
            r.total() == game_total(self@),
            r.is_final() == !game_pending(self@),
    {
        let n = self.frames.len();
        let mut score: u32 = 0;
        let mut in_progress = n < FRAMES_PER_GAME;
        let mut pos: usize = 0;
        while pos < n
            invariant
                self.wf(),
                n == self@.len(),
                n <= FRAMES_PER_GAME,
                0 <= pos <= n,
                score as int == game_total_upto(self@, pos as int),
                score <= 30 * pos,
                in_progress == (n < FRAMES_PER_GAME || game_pending_upto(self@, pos as int)),
            decreases n - pos,
        {
            proof {
                self.lemma_frame_wf(pos as int);
                lemma_frame_in_game_bounds(self@, pos as int);
            }
            match self.frames[pos].score(Some((pos, self))) {
                Pins::InprogressPins(x) => {
                    score = score + x;
                    in_progress = true;
                },
                Pins::FinalPins(x) => {
                    score = score + x;
                },
            }
            pos = pos + 1;
        }
        Pins::from_parts(score, in_progress)
    }
}

} // verus!
