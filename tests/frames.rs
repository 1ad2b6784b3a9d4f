use bowl::{Draw, Game, NextAction, Pins, RegularFrame};

#[test]
fn reg_open_score() {
    let mut frame = RegularFrame::new();
    assert_eq!(frame.set_draw(Draw::Open(4)), NextAction::NextDraw);
    assert_eq!(frame.score(None), Pins::InprogressPins(4));
    assert_eq!(frame.set_draw(Draw::Open(2)), NextAction::NextFrame);
    assert_eq!(frame.score(None), Pins::FinalPins(6));
}

#[test]
fn first_draw_fooled_score() {
    let mut frame = RegularFrame::new();
    assert_eq!(frame.set_draw(Draw::Fool), NextAction::NextDraw);
    assert_eq!(frame.score(None), Pins::InprogressPins(0));
    assert_eq!(frame.set_draw(Draw::Open(4)), NextAction::NextFrame);
    assert_eq!(frame.score(None), Pins::FinalPins(4));
}

#[test]
fn second_draw_fooled_score() {
    let mut frame = RegularFrame::new();
    assert_eq!(frame.set_draw(Draw::Open(4)), NextAction::NextDraw);
    assert_eq!(frame.score(None), Pins::InprogressPins(4));
    assert_eq!(frame.set_draw(Draw::Fool), NextAction::NextFrame);
    assert_eq!(frame.score(None), Pins::FinalPins(4));
}

#[test]
fn both_draw_fooled_score() {
    let mut frame = RegularFrame::new();
    assert_eq!(frame.set_draw(Draw::Fool), NextAction::NextDraw);
    assert_eq!(frame.score(None), Pins::InprogressPins(0));
    assert_eq!(frame.set_draw(Draw::Fool), NextAction::NextFrame);
    assert_eq!(frame.score(None), Pins::FinalPins(0));
}

#[test]
fn reg_spare_inprogress() {
    let mut frame = RegularFrame::new();
    assert_eq!(frame.set_draw(Draw::Open(4)), NextAction::NextDraw);
    assert_eq!(frame.score(None), Pins::InprogressPins(4));
    assert_eq!(frame.set_draw(Draw::Spare), NextAction::NextFrame);
    assert_eq!(frame.score(None), Pins::InprogressPins(10));
}

#[test]
fn reg_strike_inprogress() {
    let mut frame = RegularFrame::new();
    assert_eq!(frame.set_draw(Draw::Strike), NextAction::NextFrame);
    assert_eq!(frame.score(None), Pins::InprogressPins(10));
}

#[test]
fn two_open_frames() {
    let mut game = Game::new();
    {
        let frame = game.next_frame();
        assert_eq!(frame.set_draw(Draw::Open(5)), NextAction::NextDraw);
        assert_eq!(frame.score(None), Pins::InprogressPins(5));
        assert_eq!(frame.set_draw(Draw::Open(2)), NextAction::NextFrame);
        assert_eq!(frame.score(None), Pins::FinalPins(7));
    }
    {
        let frame = game.next_frame();
        assert_eq!(frame.set_draw(Draw::Open(4)), NextAction::NextDraw);
        assert_eq!(frame.score(None), Pins::InprogressPins(4));
        assert_eq!(frame.set_draw(Draw::Open(4)), NextAction::NextFrame);
        assert_eq!(frame.score(None), Pins::FinalPins(8));
    }
    assert_eq!(game.score(), Pins::InprogressPins(15));
}

#[test]
fn two_spares_frames() {
    let mut game = Game::new();
    {
        let frame = game.next_frame();
        assert_eq!(frame.set_draw(Draw::Open(5)), NextAction::NextDraw);
        assert_eq!(frame.score(None), Pins::InprogressPins(5));
        assert_eq!(frame.set_draw(Draw::Spare), NextAction::NextFrame);
        assert_eq!(frame.score(None), Pins::InprogressPins(10));
    }
    {
        let frame = game.next_frame();
        assert_eq!(frame.set_draw(Draw::Open(4)), NextAction::NextDraw);
        assert_eq!(frame.score(None), Pins::InprogressPins(4));
        assert_eq!(frame.set_draw(Draw::Spare), NextAction::NextFrame);
        assert_eq!(frame.score(None), Pins::InprogressPins(10));
    }
    assert_eq!(game.score(), Pins::InprogressPins(24));
}

#[test]
fn three_strikes_frames() {
    let mut game = Game::new();
    {
        let frame = game.next_frame();
        assert_eq!(frame.set_draw(Draw::Strike), NextAction::NextFrame);
        assert_eq!(frame.score(None), Pins::InprogressPins(10));
    }
    {
        let frame = game.next_frame();
        assert_eq!(frame.set_draw(Draw::Strike), NextAction::NextFrame);
        assert_eq!(frame.score(None), Pins::InprogressPins(10));
    }
    {
        let frame = game.next_frame();
        assert_eq!(frame.set_draw(Draw::Strike), NextAction::NextFrame);
        assert_eq!(frame.score(None), Pins::InprogressPins(10));
    }
    assert_eq!(game.score(), Pins::InprogressPins(60));
}

#[test]
fn max_score() {
    let mut game = Game::new();
    for _ in 0..9 {
        {
        let frame = game.next_frame();
        assert_eq!(frame.set_draw(Draw::Strike), NextAction::NextFrame);
        assert_eq!(frame.score(None), Pins::InprogressPins(10));
        }
    }
    assert_eq!(game.score(), Pins::InprogressPins(240));
    {
        let frame = game.next_frame();
        assert_eq!(frame.set_draw(Draw::Strike), NextAction::NextDraw);
        assert_eq!(frame.score(None), Pins::InprogressPins(10));
        assert_eq!(frame.set_draw(Draw::Strike), NextAction::NextDraw);
        assert_eq!(frame.score(None), Pins::InprogressPins(20));
        assert_eq!(frame.set_draw(Draw::Strike), NextAction::Finish);
        assert_eq!(frame.score(None), Pins::FinalPins(30));
    }
    assert_eq!(game.score(), Pins::FinalPins(300));
}

#[test]
fn spare_at_end() {
    let mut game = Game::new();
    for _ in 0..9 {
        {
        let frame = game.next_frame();
        assert_eq!(frame.set_draw(Draw::Strike), NextAction::NextFrame);
        assert_eq!(frame.score(None), Pins::InprogressPins(10));
        }
    }
    assert_eq!(game.score(), Pins::InprogressPins(240));
    {
        let frame = game.next_frame();
        assert_eq!(frame.set_draw(Draw::Open(4)), NextAction::NextDraw);
        assert_eq!(frame.score(None), Pins::InprogressPins(4));
        assert_eq!(frame.set_draw(Draw::Spare), NextAction::NextDraw);
        assert_eq!(frame.score(None), Pins::InprogressPins(10));
        assert_eq!(frame.set_draw(Draw::Strike), NextAction::Finish);
        assert_eq!(frame.score(None), Pins::FinalPins(20));
    }
    assert_eq!(game.score(), Pins::FinalPins(274));
}

#[test]
fn open_at_end() {
    let mut game = Game::new();
    for _ in 0..9 {
        {
        let frame = game.next_frame();
        assert_eq!(frame.set_draw(Draw::Strike), NextAction::NextFrame);
        assert_eq!(frame.score(None), Pins::InprogressPins(10));
        }
    }
    assert_eq!(game.score(), Pins::InprogressPins(240));
    {
        let frame = game.next_frame();
        assert_eq!(frame.set_draw(Draw::Open(4)), NextAction::NextDraw);
        assert_eq!(frame.score(None), Pins::InprogressPins(4));
        assert_eq!(frame.set_draw(Draw::Open(3)), NextAction::Finish);
        assert_eq!(frame.score(None), Pins::FinalPins(7));
    }
    assert_eq!(game.score(), Pins::FinalPins(258));
}

#[test]
fn two_open_at_end() {
    let mut game = Game::new();
    for _ in 0..8 {
        {
        let frame = game.next_frame();
        assert_eq!(frame.set_draw(Draw::Strike), NextAction::NextFrame);
        assert_eq!(frame.score(None), Pins::InprogressPins(10));
        }
    }
    assert_eq!(game.score(), Pins::InprogressPins(210));
    {
        let frame = game.next_frame();
        assert_eq!(frame.set_draw(Draw::Open(4)), NextAction::NextDraw);
        assert_eq!(frame.score(None), Pins::InprogressPins(4));
        assert_eq!(frame.set_draw(Draw::Open(3)), NextAction::NextFrame);
        assert_eq!(frame.score(None), Pins::FinalPins(7));
    }
    assert_eq!(game.score(), Pins::InprogressPins(228));
    {
        let frame = game.next_frame();
        assert_eq!(frame.set_draw(Draw::Open(6)), NextAction::NextDraw);
        assert_eq!(frame.score(None), Pins::InprogressPins(6));
        assert_eq!(frame.set_draw(Draw::Open(2)), NextAction::Finish);
        assert_eq!(frame.score(None), Pins::FinalPins(8));
    }
    assert_eq!(game.score(), Pins::FinalPins(236));
}

#[test]
fn play_ones() {
    let mut game = Game::new();
    'frames: loop {
        let frame = game.next_frame();
        loop {
            match frame.set_draw(Draw::Open(1)) {
                NextAction::NextDraw => {},
                NextAction::NextFrame => { continue 'frames; },
                NextAction::Finish => { break 'frames; },
            }
        }
    }
    assert_eq!(game.score(), Pins::FinalPins(20));
}
