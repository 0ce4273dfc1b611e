//! Funkoro, nest edition: a first-person ball-rolling puzzle in which the
//! dung beetle's view and the ball grow together, and the ball has to fit
//! the nest's hole.
//!
//! The rules of a run live here: stage progress, what reaching a nest does,
//! the first-clear score, the run's random numbers and when a stage gets a
//! new hole, the controls and the screen texts. Movement, growth in mud and
//! collisions work on floating-point positions and stay with the engine;
//! they hand in what they decided (the ball reached the nest, the ball fits
//! the hole, the ball's diameter).
use crate::input_map::{GutzAction, GutzInputContexts, restrictions_after};
use crate::input_source::{GutzInputSource, KeyCode};
use crate::lifecycle::{GutzExecutionContext, GutzLifecycleState};
use crate::text::{decimal, u32_text};
use vstd::prelude::*;

verus! {

/// How many stages a run has.
pub const STAGE_COUNT: u8 = 3;

#[derive(Clone, Copy, PartialEq, Eq, Debug, Hash, Structural)]
pub enum GameState {
    Title,
    Playing,
    Menu,
    Cleared,
    Stuck,
}

impl Default for GameState {
    fn default() -> (r: Self)
        ensures
            r == GameState::Title,
    {
        GameState::Title
    }
}

impl GutzLifecycleState for GameState {
    open spec fn spec_context(&self) -> GutzExecutionContext {
        match self {
            GameState::Playing => GutzExecutionContext::InGame,
            _ => GutzExecutionContext::OutGame,
        }
    }

    /// Only `Playing` is gameplay; title, menu and the result screens are
    /// out of game.
    fn execution_context(&self) -> (r: GutzExecutionContext) {
        match self {
            GameState::Playing => GutzExecutionContext::InGame,
            GameState::Title | GameState::Menu | GameState::Cleared | GameState::Stuck =>
                GutzExecutionContext::OutGame,
        }
    }
}

#[derive(Clone, Copy, PartialEq, Eq, Debug, Hash, Structural)]
pub enum BeetleAction {
    PushBackward,
    TurnLeft,
    TurnRight,
    ResetStage,
    OpenMenu,
    Start,
}

impl GutzAction for BeetleAction {
    fn same_action(&self, other: &Self) -> (r: bool) {
        *self == *other
    }
}

#[derive(Clone, Copy, PartialEq, Eq, Debug, Hash, Structural)]
pub enum UiScreen {
    Title,
    Menu,
    Cleared,
    Stuck,
}

/// What is saved: the furthest stage ever reached.
#[derive(Clone, Copy, PartialEq, Eq, Debug, Structural)]
pub struct SaveData {
    pub best_stage: u8,
}

/// The stage being played (from 0) and the best stage count reached so far.
#[derive(Clone, Copy, PartialEq, Eq, Debug, Structural)]
pub struct PuzzleProgress {
    pub stage: u8,
    pub best_stage: u8,
}

impl Default for PuzzleProgress {
    fn default() -> (r: Self)
        ensures
            r.stage == 0,
            r.best_stage == 0,
    {
        PuzzleProgress { stage: 0, best_stage: 0 }
    }
}

/// What happens when the ball reaches the nest.
#[derive(Clone, Copy, PartialEq, Eq, Debug, Structural)]
pub enum Arrival {
    /// The ball does not fit the hole: the run is stuck.
    Stuck,
    /// The stage is done and the next one is set up, with a new hole.
    NextStage,
    /// The last stage is done.
    Cleared,
}

/// Completing the current stage: one stage further, and the best stage
/// raised to it when it is further than any before.
pub open spec fn complete_stage(p: PuzzleProgress) -> PuzzleProgress {
    let stage = (p.stage + 1) as u8;
    PuzzleProgress { stage, best_stage: if p.best_stage > stage { p.best_stage } else { stage } }
}

impl PuzzleProgress {
    /// The ball reached the nest; `fits` says whether it fits the hole.
    /// A fitting ball completes the stage (and the progress is saved).
    pub fn arrive(&mut self, fits: bool) -> (r: (Arrival, Option<SaveData>))
        requires
            old(self).stage < u8::MAX,
        ensures
            !fits ==> *final(self) == *old(self) && r == (Arrival::Stuck, None::<SaveData>),
            fits ==> {
                &&& *final(self) == complete_stage(*old(self))
                &&& r.1 == Some(SaveData { best_stage: final(self).best_stage })
                &&& r.0 == (if final(self).stage < STAGE_COUNT {
                    Arrival::NextStage
                } else {
                    Arrival::Cleared
                })
            },
    {
        if !fits {
            return (Arrival::Stuck, None);
        }
        self.stage = self.stage + 1;
        if self.best_stage < self.stage {
            self.best_stage = self.stage;
        }
        let save = SaveData { best_stage: self.best_stage };
        if self.stage < STAGE_COUNT {
            (Arrival::NextStage, Some(save))
        } else {
            (Arrival::Cleared, Some(save))
        }
    }
}

/// The ball's diameter (in cm) at the first clear of the session.
#[derive(Clone, Copy, PartialEq, Eq, Debug, Structural)]
pub struct ClearScore {
    pub first_clear_diameter_cm: Option<u32>,
}

impl Default for ClearScore {
    fn default() -> (r: Self)
        ensures
            r.first_clear_diameter_cm is None,
    {
        ClearScore { first_clear_diameter_cm: None }
    }
}

impl ClearScore {
    /// Records the diameter of a clear unless one is already recorded: the
    /// first clear is kept.
    pub fn record_clear(&mut self, diameter_cm: u32)
        ensures
            final(self).first_clear_diameter_cm == match old(self).first_clear_diameter_cm {
                Some(d) => Some(d),
                None => Some(diameter_cm),
            },
    {
        if self.first_clear_diameter_cm.is_none() {
            self.first_clear_diameter_cm = Some(diameter_cm);
        }
    }
}

/// Starting from an out-of-game screen: from the menu the run resumes; from
/// anywhere else a new run starts at stage 0 with no recorded clear, and the
/// stage is set up with a new hole. Returns whether a new run started.
pub fn start_from(state: GameState, progress: &mut PuzzleProgress, score: &mut ClearScore) -> (r:
    bool)
    ensures
        r == (state != GameState::Menu),
        r ==> final(progress).stage == 0 && final(progress).best_stage == old(progress).best_stage
            && final(score).first_clear_diameter_cm is None,
        !r ==> *final(progress) == *old(progress) && *final(score) == *old(score),
{
    if state != GameState::Menu {
        progress.stage = 0;
        score.first_clear_diameter_cm = None;
        true
    } else {
        false
    }
}

/// The stage's slot among the fixed layouts.
pub fn stage_slot(stage: u8) -> (r: u8)
    ensures
        r == stage % STAGE_COUNT,
        r < STAGE_COUNT,
{
    stage % STAGE_COUNT
}

/// The hole of a stage: which stage it was made for, and where it is (as
/// the engine places it).
pub struct HoleLayout<P> {
    pub stage: u8,
    pub placement: P,
}

/// The run's random source and the current hole.
pub struct RunLayout<P> {
    pub random_state: u64,
    pub hole: Option<HoleLayout<P>>,
}

/// The multiplier and increment of the run's linear congruential generator.
pub const LCG_MULTIPLIER: u64 = 6364136223846793005;

pub const LCG_INCREMENT: u64 = 1442695040888963407;

/// One step of the generator: `state * multiplier + increment` modulo 2^64.
pub open spec fn lcg_next(state: u64) -> u64 {
    ((state as nat * LCG_MULTIPLIER as nat + LCG_INCREMENT as nat) % 0x1_0000_0000_0000_0000)
        as u64
}

impl<P> RunLayout<P> {
    /// A run's layout before any hole is made, with the generator seeded
    /// (the game seeds it from the clock).
    pub fn with_seed(seed: u64) -> (r: Self)
        ensures
            r.random_state == seed,
            r.hole is None,
    {
        RunLayout { random_state: seed, hole: None }
    }

    /// Advances the generator and returns its top 24 bits: a value below
    /// 2^24, which the caller scales into [0, 1).
    pub fn next_random_bits(&mut self) -> (r: u32)
        ensures
            final(self).random_state == lcg_next(old(self).random_state),
            r as nat == final(self).random_state as nat / 0x100_0000_0000,
            r < 0x100_0000,
            final(self).hole == old(self).hole,
    {
        let s = self.random_state;
        let m = s.wrapping_mul(LCG_MULTIPLIER);
        let next = m.wrapping_add(LCG_INCREMENT);
        proof {
            let big = 0x1_0000_0000_0000_0000nat;
            let prod = s as nat * LCG_MULTIPLIER as nat;
            assert(m as nat == prod % big);
            vstd::arithmetic::div_mod::lemma_add_mod_noop(
                prod as int,
                LCG_INCREMENT as int,
                big as int,
            );
            assert((LCG_INCREMENT as int) % (big as int) == LCG_INCREMENT as int);
            assert(next as nat == (m as nat + LCG_INCREMENT as nat) % big);
        }
        self.random_state = next;
        let bits = (next >> 40u64) as u32;
        assert((next >> 40u64) as u32 as nat == next as nat / 0x100_0000_0000) by (bit_vector);
        assert((next >> 40u64) < 0x100_0000) by (bit_vector);
        bits
    }

    /// A stage gets a new hole when asked to (a stage just completed), or
    /// when there is no hole yet, or the hole was made for another stage;
    /// a reset of the same stage keeps its hole.
    pub fn needs_new_hole(&self, stage: u8, reroll: bool) -> (r: bool)
        ensures
            r == (reroll || match self.hole {
                Some(h) => h.stage != stage,
                None => true,
            }),
    {
        if reroll {
            return true;
        }
        match &self.hole {
            Some(h) => h.stage != stage,
            None => true,
        }
    }
}

/// The title and body text of a screen. The clear screen shows the first
/// clear's ball diameter when one is recorded.
pub fn screen_text(screen: UiScreen, first_clear_diameter_cm: Option<u32>) -> (r: (&'static str, String))
    ensures
        screen == UiScreen::Title ==> r.0@ == "FUNKORO"@ && r.1@ == "THE SOIL REMEMBERS"@,
        screen == UiScreen::Menu ==> r.0@ == "PAUSED"@ && r.1@ == Seq::<char>::empty(),
        screen == UiScreen::Stuck ==> r.0@ == "STUCK"@ && r.1@ == Seq::<char>::empty(),
        screen == UiScreen::Cleared ==> r.0@ == "NEST SEALED"@ && r.1@ == match first_clear_diameter_cm {
            Some(d) => "BALL "@ + decimal(d as nat) + " cm"@,
            None => Seq::<char>::empty(),
        },
{
    match screen {
        UiScreen::Title => ("FUNKORO", "THE SOIL REMEMBERS".to_owned()),
        UiScreen::Menu => ("PAUSED", String::new()),
        UiScreen::Stuck => ("STUCK", String::new()),
        UiScreen::Cleared => {
            let body = match first_clear_diameter_cm {
                Some(d) => {
                    let mut s = "BALL ".to_owned();
                    s.append(u32_text(d).as_str());
                    s.append(" cm");
                    s
                },
                None => String::new(),
            };
            ("NEST SEALED", body)
        },
    }
}

/// The hole indicator: `HOLE <diameter> cm`.
pub fn hole_hud_text(diameter_cm: u32) -> (r: String)
    ensures
        r@ == "HOLE "@ + decimal(diameter_cm as nat) + " cm"@,
{
    let mut s = "HOLE ".to_owned();
    s.append(u32_text(diameter_cm).as_str());
    s.append(" cm");
    s
}

/// The view-pressure indicator: `TILT <percent>%`.
pub fn tilt_hud_text(percent: u32) -> (r: String)
    ensures
        r@ == "TILT "@ + decimal(percent as nat) + "%"@,
{
    let mut s = "TILT ".to_owned();
    s.append(u32_text(percent).as_str());
    s.append("%");
    s
}

/// The key bindings of the nest edition, in the order they are bound.
pub open spec fn nest_controls() -> Seq<(BeetleAction, GutzInputSource)> {
    seq![
        (BeetleAction::PushBackward, GutzInputSource::Key(KeyCode::KeyS)),
        (BeetleAction::TurnLeft, GutzInputSource::Key(KeyCode::KeyQ)),
        (BeetleAction::TurnRight, GutzInputSource::Key(KeyCode::KeyE)),
        (BeetleAction::ResetStage, GutzInputSource::Key(KeyCode::KeyR)),
        (BeetleAction::OpenMenu, GutzInputSource::Key(KeyCode::Escape)),
        (BeetleAction::Start, GutzInputSource::Key(KeyCode::Enter)),
        (BeetleAction::Start, GutzInputSource::Key(KeyCode::Space)),
    ]
}

/// The context restrictions of the nest edition: the gameplay actions only
/// in game, `Start` only out of game.
pub open spec fn nest_restrictions() -> Seq<(BeetleAction, GutzExecutionContext)> {
    seq![
        (BeetleAction::PushBackward, GutzExecutionContext::InGame),
        (BeetleAction::TurnLeft, GutzExecutionContext::InGame),
        (BeetleAction::TurnRight, GutzExecutionContext::InGame),
        (BeetleAction::ResetStage, GutzExecutionContext::InGame),
        (BeetleAction::OpenMenu, GutzExecutionContext::InGame),
        (BeetleAction::Start, GutzExecutionContext::OutGame),
    ]
}

/// Records the context restrictions and returns the key bindings to add to
/// the input map.
pub fn configure_controls(contexts: &mut GutzInputContexts<BeetleAction>) -> (r: Vec<
    (BeetleAction, GutzInputSource),
>)
    requires
        old(contexts).wf(),
    ensures
        r@ == nest_controls(),
        final(contexts).wf(),
        final(contexts).spec_restrictions() == restrictions_after(
            old(contexts).spec_restrictions(),
            nest_restrictions(),
        ),
{
    let mut bindings: Vec<(BeetleAction, GutzInputSource)> = Vec::new();
    bindings.push((BeetleAction::PushBackward, GutzInputSource::Key(KeyCode::KeyS)));
    bindings.push((BeetleAction::TurnLeft, GutzInputSource::Key(KeyCode::KeyQ)));
    bindings.push((BeetleAction::TurnRight, GutzInputSource::Key(KeyCode::KeyE)));
    bindings.push((BeetleAction::ResetStage, GutzInputSource::Key(KeyCode::KeyR)));
    bindings.push((BeetleAction::OpenMenu, GutzInputSource::Key(KeyCode::Escape)));
    bindings.push((BeetleAction::Start, GutzInputSource::Key(KeyCode::Enter)));
    bindings.push((BeetleAction::Start, GutzInputSource::Key(KeyCode::Space)));
    let ghost mut done = Seq::<(BeetleAction, GutzExecutionContext)>::empty();
    assert(contexts.spec_restrictions() == restrictions_after(old(contexts).spec_restrictions(), done));
    contexts.restrict_to(BeetleAction::PushBackward, GutzExecutionContext::InGame);
    proof {
        let step = (BeetleAction::PushBackward, GutzExecutionContext::InGame);
        assert(done.push(step).drop_last() =~= done);
        done = done.push(step);
        assert(contexts.spec_restrictions() == restrictions_after(
            old(contexts).spec_restrictions(),
            done,
        ));
    }
    contexts.restrict_to(BeetleAction::TurnLeft, GutzExecutionContext::InGame);
    proof {
        let step = (BeetleAction::TurnLeft, GutzExecutionContext::InGame);
        assert(done.push(step).drop_last() =~= done);
        done = done.push(step);
        assert(contexts.spec_restrictions() == restrictions_after(
            old(contexts).spec_restrictions(),
            done,
        ));
    }
    contexts.restrict_to(BeetleAction::TurnRight, GutzExecutionContext::InGame);
    proof {
        let step = (BeetleAction::TurnRight, GutzExecutionContext::InGame);
        assert(done.push(step).drop_last() =~= done);
        done = done.push(step);
        assert(contexts.spec_restrictions() == restrictions_after(
            old(contexts).spec_restrictions(),
            done,
        ));
    }
    contexts.restrict_to(BeetleAction::ResetStage, GutzExecutionContext::InGame);
    proof {
        let step = (BeetleAction::ResetStage, GutzExecutionContext::InGame);
        assert(done.push(step).drop_last() =~= done);
        done = done.push(step);
        assert(contexts.spec_restrictions() == restrictions_after(
            old(contexts).spec_restrictions(),
            done,
        ));
    }
    contexts.restrict_to(BeetleAction::OpenMenu, GutzExecutionContext::InGame);
    proof {
        let step = (BeetleAction::OpenMenu, GutzExecutionContext::InGame);
        assert(done.push(step).drop_last() =~= done);
        done = done.push(step);
        assert(contexts.spec_restrictions() == restrictions_after(
            old(contexts).spec_restrictions(),
            done,
        ));
    }
    contexts.restrict_to(BeetleAction::Start, GutzExecutionContext::OutGame);
    proof {
        let step = (BeetleAction::Start, GutzExecutionContext::OutGame);
        assert(done.push(step).drop_last() =~= done);
        done = done.push(step);
        assert(contexts.spec_restrictions() == restrictions_after(
            old(contexts).spec_restrictions(),
            done,
        ));
    }
    assert(bindings@ =~= nest_controls());
    assert(done =~= nest_restrictions());
    bindings
}

/// The best stage never decreases and never falls behind the stage being
/// played: completing a stage and starting a new run both keep that so.
pub proof fn law_best_stage_keeps_up(p: PuzzleProgress)
    requires
        p.stage < u8::MAX,
        p.best_stage >= p.stage,
    ensures
        complete_stage(p).best_stage >= p.best_stage,
        complete_stage(p).best_stage >= complete_stage(p).stage,
        complete_stage(p).stage == p.stage + 1,
{
}

/// A run started afresh clears on the third fitting arrival and not before:
/// the first two arrivals lead to the next stage.
pub proof fn law_run_clears_on_last_stage(best_stage: u8)
    ensures
        ({
            let p1 = complete_stage(PuzzleProgress { stage: 0, best_stage });
            let p2 = complete_stage(p1);
            let p3 = complete_stage(p2);
            &&& p1.stage < STAGE_COUNT
            &&& p2.stage < STAGE_COUNT
            &&& p3.stage == STAGE_COUNT
        }),
{
}

/// Completing a stage moves one stage on, and the best stage becomes the
/// larger of the previous best and the stage now reached: it is never raised
/// past the furthest stage actually reached.
pub proof fn law_best_stage_is_furthest_reached(p: PuzzleProgress)
    requires
        p.stage < u8::MAX,
    ensures
        complete_stage(p).stage == p.stage + 1,
        complete_stage(p).best_stage == (if p.best_stage >= p.stage + 1 {
            p.best_stage as int
        } else {
            p.stage + 1
        }),
{
}

/// Replaying after a clear: a run started afresh with the best stage at the
/// last stage goes through every stage and leaves the best stage where it
/// was.
pub proof fn law_replay_keeps_best_stage()
    ensures
        ({
            let p0 = PuzzleProgress { stage: 0, best_stage: STAGE_COUNT };
            let p1 = complete_stage(p0);
            let p2 = complete_stage(p1);
            let p3 = complete_stage(p2);
            &&& p1 == PuzzleProgress { stage: 1, best_stage: STAGE_COUNT }
            &&& p2 == PuzzleProgress { stage: 2, best_stage: STAGE_COUNT }
            &&& p3 == PuzzleProgress { stage: STAGE_COUNT, best_stage: STAGE_COUNT }
        }),
{
}

} // verus!
