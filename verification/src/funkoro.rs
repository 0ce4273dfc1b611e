//! Funkoro: push a dung ball into the nest from the beetle's point of view,
//! across three stages.
//!
//! Here are the rules of a run (stage progress, what starting does, what
//! reaching a nest does), the controls and the texts on screen. Walking,
//! rolling and bouncing work on floating-point positions and stay with the
//! engine, which reports when the ball reached the nest.
use crate::input_map::{GutzAction, GutzInputContexts, restrictions_after};
use crate::input_source::{GutzInputSource, KeyCode};
use crate::lifecycle::{GutzExecutionContext, GutzLifecycleState};
use crate::text::{decimal, u32_text};
use vstd::prelude::*;

verus! {

/// How many stages a run has.
pub const STAGE_COUNT: u8 = 3;

#[derive(Clone, Copy, PartialEq, Eq, Debug, Hash, Structural)]
pub enum GameState {
    Title,
    Playing,
    Cleared,
}

impl Default for GameState {
    fn default() -> (r: Self)
        ensures
            r == GameState::Title,
    {
        GameState::Title
    }
}

impl GutzLifecycleState for GameState {
    open spec fn spec_context(&self) -> GutzExecutionContext {
        match self {
            GameState::Playing => GutzExecutionContext::InGame,
            _ => GutzExecutionContext::OutGame,
        }
    }

    /// Only `Playing` is gameplay; the title and the clear screen are out of
    /// game.
    fn execution_context(&self) -> (r: GutzExecutionContext) {
        match self {
            GameState::Playing => GutzExecutionContext::InGame,
            GameState::Title | GameState::Cleared => GutzExecutionContext::OutGame,
        }
    }
}

#[derive(Clone, Copy, PartialEq, Eq, Debug, Hash, Structural)]
pub enum BeetleAction {
    Forward,
    Backward,
    Left,
    Right,
    TurnLeft,
    TurnRight,
    ResetStage,
    Start,
}

impl GutzAction for BeetleAction {
    fn same_action(&self, other: &Self) -> (r: bool) {
        *self == *other
    }
}

#[derive(Clone, Copy, PartialEq, Eq, Debug, Hash, Structural)]
pub enum UiScreen {
    Title,
    Cleared,
}

/// What is saved: the furthest stage ever reached.
#[derive(Clone, Copy, PartialEq, Eq, Debug, Structural)]
pub struct SaveData {
    pub best_stage: u8,
}

/// The stage being played (from 0) and the best stage count reached so far.
#[derive(Clone, Copy, PartialEq, Eq, Debug, Structural)]
pub struct PuzzleProgress {
    pub stage: u8,
    pub best_stage: u8,
}

impl Default for PuzzleProgress {
    fn default() -> (r: Self)
        ensures
            r.stage == 0,
            r.best_stage == 0,
    {
        PuzzleProgress { stage: 0, best_stage: 0 }
    }
}

/// Where a run goes after a stage is completed.
#[derive(Clone, Copy, PartialEq, Eq, Debug, Structural)]
pub enum StageOutcome {
    /// The next stage is laid out.
    NextStage,
    /// The last stage is done: the clear screen opens.
    Cleared,
}

/// Completing the current stage: one stage further, and the best stage
/// raised to it when it is further than any before.
pub open spec fn complete_stage(p: PuzzleProgress) -> PuzzleProgress {
    let stage = (p.stage + 1) as u8;
    PuzzleProgress { stage, best_stage: if p.best_stage > stage { p.best_stage } else { stage } }
}

impl PuzzleProgress {
    /// The ball reached the nest: the stage is completed and the progress
    /// to save is returned.
    pub fn reach_nest(&mut self) -> (r: (StageOutcome, SaveData))
        requires
            old(self).stage < u8::MAX,
        ensures
            *final(self) == complete_stage(*old(self)),
            r.1 == (SaveData { best_stage: final(self).best_stage }),
            r.0 == (if final(self).stage < STAGE_COUNT {
                StageOutcome::NextStage
            } else {
                StageOutcome::Cleared
            }),
    {
        self.stage = self.stage + 1;
        if self.best_stage < self.stage {
            self.best_stage = self.stage;
        }
        let save = SaveData { best_stage: self.best_stage };
        if self.stage < STAGE_COUNT {
            (StageOutcome::NextStage, save)
        } else {
            (StageOutcome::Cleared, save)
        }
    }

    /// Starting (or starting again) from `state`: the run restarts at stage
    /// 0; starting again from the clear screen also counts every stage as
    /// reached.
    pub fn start_from(&mut self, state: GameState)
        ensures
            final(self).stage == 0,
            final(self).best_stage == (if state == GameState::Cleared && old(self).best_stage
                < STAGE_COUNT {
                STAGE_COUNT
            } else {
                old(self).best_stage
            }),
    {
        self.stage = 0;
        if state == GameState::Cleared && self.best_stage < STAGE_COUNT {
            self.best_stage = STAGE_COUNT;
        }
    }
}

/// The stage's slot among the fixed layouts.
pub fn stage_slot(stage: u8) -> (r: u8)
    ensures
        r == stage % STAGE_COUNT,
        r < STAGE_COUNT,
{
    stage % STAGE_COUNT
}

/// The first line of the heads-up display.
pub open spec fn hud_first_line(stage: u8) -> Seq<char> {
    "フンコロ  |  巣穴 "@ + decimal(stage as nat + 1) + "/"@ + decimal(STAGE_COUNT as nat)
}

/// The heads-up display: the stage (counted from 1) out of all, and the
/// controls.
pub fn hud_text(progress: &PuzzleProgress) -> (r: String)
    requires
        progress.stage < u8::MAX,
    ensures
        r@ == hud_first_line(progress.stage) + "\nWASD: 歩く  マウス / Q E: 見回す  R: やり直し"@,
{
    let mut s = "フンコロ  |  巣穴 ".to_owned();
    s.append(u32_text((progress.stage + 1) as u32).as_str());
    s.append("/");
    s.append(u32_text(STAGE_COUNT as u32).as_str());
    s.append("\nWASD: 歩く  マウス / Q E: 見回す  R: やり直し");
    s
}

/// The title and body text of a screen.
pub fn screen_text(screen: UiScreen) -> (r: (&'static str, &'static str))
    ensures
        screen == UiScreen::Title ==> r.0@ == "フンコロ"@ && r.1@
            == "玉を巣穴まで押し運べ。\n\nEnter / Space で地中へ"@,
        screen == UiScreen::Cleared ==> r.0@ == "巣穴完成"@ && r.1@
            == "三つの玉を運び終えた。\n\nEnter / Space でもう一度"@,
{
    match screen {
        UiScreen::Title => ("フンコロ", "玉を巣穴まで押し運べ。\n\nEnter / Space で地中へ"),
        UiScreen::Cleared => ("巣穴完成", "三つの玉を運び終えた。\n\nEnter / Space でもう一度"),
    }
}

/// The key bindings, in the order they are bound.
pub open spec fn controls() -> Seq<(BeetleAction, GutzInputSource)> {
    seq![
        (BeetleAction::Forward, GutzInputSource::Key(KeyCode::KeyW)),
        (BeetleAction::Backward, GutzInputSource::Key(KeyCode::KeyS)),
        (BeetleAction::Left, GutzInputSource::Key(KeyCode::KeyA)),
        (BeetleAction::Right, GutzInputSource::Key(KeyCode::KeyD)),
        (BeetleAction::TurnLeft, GutzInputSource::Key(KeyCode::KeyQ)),
        (BeetleAction::TurnRight, GutzInputSource::Key(KeyCode::KeyE)),
        (BeetleAction::ResetStage, GutzInputSource::Key(KeyCode::KeyR)),
        (BeetleAction::Start, GutzInputSource::Key(KeyCode::Enter)),
        (BeetleAction::Start, GutzInputSource::Key(KeyCode::Space)),
    ]
}

/// The context restrictions: the gameplay actions only in game, `Start`
/// only out of game.
pub open spec fn restrictions() -> Seq<(BeetleAction, GutzExecutionContext)> {
    seq![
        (BeetleAction::Forward, GutzExecutionContext::InGame),
        (BeetleAction::Backward, GutzExecutionContext::InGame),
        (BeetleAction::Left, GutzExecutionContext::InGame),
        (BeetleAction::Right, GutzExecutionContext::InGame),
        (BeetleAction::TurnLeft, GutzExecutionContext::InGame),
        (BeetleAction::TurnRight, GutzExecutionContext::InGame),
        (BeetleAction::ResetStage, GutzExecutionContext::InGame),
        (BeetleAction::Start, GutzExecutionContext::OutGame),
    ]
}

/// Records the context restrictions and returns the key bindings to add to
/// the input map.
pub fn configure_controls(contexts: &mut GutzInputContexts<BeetleAction>) -> (r: Vec<
    (BeetleAction, GutzInputSource),
>)
    requires
        old(contexts).wf(),
    ensures
        r@ == controls(),
        final(contexts).wf(),
        final(contexts).spec_restrictions() == restrictions_after(
            old(contexts).spec_restrictions(),
            restrictions(),
        ),
{
    let mut bindings: Vec<(BeetleAction, GutzInputSource)> = Vec::new();
    bindings.push((BeetleAction::Forward, GutzInputSource::Key(KeyCode::KeyW)));
    bindings.push((BeetleAction::Backward, GutzInputSource::Key(KeyCode::KeyS)));
    bindings.push((BeetleAction::Left, GutzInputSource::Key(KeyCode::KeyA)));
    bindings.push((BeetleAction::Right, GutzInputSource::Key(KeyCode::KeyD)));
    bindings.push((BeetleAction::TurnLeft, GutzInputSource::Key(KeyCode::KeyQ)));
    bindings.push((BeetleAction::TurnRight, GutzInputSource::Key(KeyCode::KeyE)));
    bindings.push((BeetleAction::ResetStage, GutzInputSource::Key(KeyCode::KeyR)));
    bindings.push((BeetleAction::Start, GutzInputSource::Key(KeyCode::Enter)));
    bindings.push((BeetleAction::Start, GutzInputSource::Key(KeyCode::Space)));
    let ghost mut done = Seq::<(BeetleAction, GutzExecutionContext)>::empty();
    assert(contexts.spec_restrictions() == restrictions_after(old(contexts).spec_restrictions(), done));
    contexts.restrict_to(BeetleAction::Forward, GutzExecutionContext::InGame);
    proof {
        let step = (BeetleAction::Forward, GutzExecutionContext::InGame);
        assert(done.push(step).drop_last() =~= done);
        done = done.push(step);
        assert(contexts.spec_restrictions() == restrictions_after(
            old(contexts).spec_restrictions(),
            done,
        ));
    }
    contexts.restrict_to(BeetleAction::Backward, GutzExecutionContext::InGame);
    proof {
        let step = (BeetleAction::Backward, GutzExecutionContext::InGame);
        assert(done.push(step).drop_last() =~= done);
        done = done.push(step);
        assert(contexts.spec_restrictions() == restrictions_after(
            old(contexts).spec_restrictions(),
            done,
        ));
    }
    contexts.restrict_to(BeetleAction::Left, GutzExecutionContext::InGame);
    proof {
        let step = (BeetleAction::Left, GutzExecutionContext::InGame);
        assert(done.push(step).drop_last() =~= done);
        done = done.push(step);
        assert(contexts.spec_restrictions() == restrictions_after(
            old(contexts).spec_restrictions(),
            done,
        ));
    }
    contexts.restrict_to(BeetleAction::Right, GutzExecutionContext::InGame);
    proof {
        let step = (BeetleAction::Right, GutzExecutionContext::InGame);
        assert(done.push(step).drop_last() =~= done);
        done = done.push(step);
        assert(contexts.spec_restrictions() == restrictions_after(
            old(contexts).spec_restrictions(),
            done,
        ));
    }
    contexts.restrict_to(BeetleAction::TurnLeft, GutzExecutionContext::InGame);
    proof {
        let step = (BeetleAction::TurnLeft, GutzExecutionContext::InGame);
        assert(done.push(step).drop_last() =~= done);
        done = done.push(step);
        assert(contexts.spec_restrictions() == restrictions_after(
            old(contexts).spec_restrictions(),
            done,
        ));
    }
    contexts.restrict_to(BeetleAction::TurnRight, GutzExecutionContext::InGame);
    proof {
        let step = (BeetleAction::TurnRight, GutzExecutionContext::InGame);
        assert(done.push(step).drop_last() =~= done);
        done = done.push(step);
        assert(contexts.spec_restrictions() == restrictions_after(
            old(contexts).spec_restrictions(),
            done,
        ));
    }
    contexts.restrict_to(BeetleAction::ResetStage, GutzExecutionContext::InGame);
    proof {
        let step = (BeetleAction::ResetStage, GutzExecutionContext::InGame);
        assert(done.push(step).drop_last() =~= done);
        done = done.push(step);
        assert(contexts.spec_restrictions() == restrictions_after(
            old(contexts).spec_restrictions(),
            done,
        ));
    }
    contexts.restrict_to(BeetleAction::Start, GutzExecutionContext::OutGame);
    proof {
        let step = (BeetleAction::Start, GutzExecutionContext::OutGame);
        assert(done.push(step).drop_last() =~= done);
        done = done.push(step);
        assert(contexts.spec_restrictions() == restrictions_after(
            old(contexts).spec_restrictions(),
            done,
        ));
    }
    assert(bindings@ =~= controls());
    assert(done =~= restrictions());
    bindings
}

/// Three nests complete a run started afresh: the first two lead to the
/// next stage, the third to the clear screen.
pub proof fn law_three_nests_clear(best_stage: u8)
    ensures
        ({
            let p1 = complete_stage(PuzzleProgress { stage: 0, best_stage });
            let p2 = complete_stage(p1);
            let p3 = complete_stage(p2);
            &&& p1.stage < STAGE_COUNT
            &&& p2.stage < STAGE_COUNT
            &&& p3.stage == STAGE_COUNT
            &&& p3.best_stage >= STAGE_COUNT
        }),
{
}

/// The best stage never decreases and never falls behind the stage being
/// played: completing a stage keeps that so.
pub proof fn law_best_stage_keeps_up(p: PuzzleProgress)
    requires
        p.stage < u8::MAX,
        p.best_stage >= p.stage,
    ensures
        complete_stage(p).best_stage >= p.best_stage,
        complete_stage(p).best_stage >= complete_stage(p).stage,
{
}

/// Completing a stage moves one stage on, and the best stage becomes the
/// larger of the previous best and the stage now reached: it is never raised
/// past the furthest stage actually reached.
pub proof fn law_best_stage_is_furthest_reached(p: PuzzleProgress)
    requires
        p.stage < u8::MAX,
    ensures
        complete_stage(p).stage == p.stage + 1,
        complete_stage(p).best_stage == (if p.best_stage >= p.stage + 1 {
            p.best_stage as int
        } else {
            p.stage + 1
        }),
{
}

/// Replaying after a clear: a run started afresh with the best stage at the
/// last stage goes through every stage and leaves the best stage where it
/// was.
pub proof fn law_replay_keeps_best_stage()
    ensures
        ({
            let p0 = PuzzleProgress { stage: 0, best_stage: STAGE_COUNT };
            let p1 = complete_stage(p0);
            let p2 = complete_stage(p1);
            let p3 = complete_stage(p2);
            &&& p1 == PuzzleProgress { stage: 1, best_stage: STAGE_COUNT }
            &&& p2 == PuzzleProgress { stage: 2, best_stage: STAGE_COUNT }
            &&& p3 == PuzzleProgress { stage: STAGE_COUNT, best_stage: STAGE_COUNT }
        }),
{
}

} // verus!
