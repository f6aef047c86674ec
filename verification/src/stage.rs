//! Stage progression: the stage state machine, step index, pausing of the
//! stage clock, death routing and restarts. Times are stage-clock nanoseconds.

use vstd::prelude::*;

verus! {

/// Lifecycle of a stage run.
#[derive(Clone, Copy, Debug, PartialEq, Eq, Structural)]
pub enum StageProgressState {
    Initial,
    Running,
    Clear,
    Cleared,
    Death,
    GameOver,
}

/// Global game flow state.
#[derive(Clone, Copy, Debug, PartialEq, Eq, Structural)]
pub enum GameProgressState {
    Running,
    Paused,
    Cutscene,
}

/// The stage clock runs only while the stage runs and the game is running or
/// in a cutscene.
pub fn stage_time_should_run(stage: StageProgressState, game: GameProgressState) -> (r: bool)
    ensures
        r == (stage == StageProgressState::Running && (game == GameProgressState::Running || game
            == GameProgressState::Cutscene)),
{
    stage == StageProgressState::Running && match game {
        GameProgressState::Running | GameProgressState::Cutscene => true,
        GameProgressState::Paused => false,
    }
}

/// `Start` pauses a running game and resumes any other state.
pub open spec fn spec_toggle_game(state: GameProgressState) -> GameProgressState {
    if state == GameProgressState::Running {
        GameProgressState::Paused
    } else {
        GameProgressState::Running
    }
}

pub fn toggle_game(state: GameProgressState) -> (r: GameProgressState)
    ensures
        r == spec_toggle_game(state),
{
    if state == GameProgressState::Running {
        GameProgressState::Paused
    } else {
        GameProgressState::Running
    }
}

/// The automatic stage transition from `state`: a new stage starts running
/// and a clear stage becomes cleared; other states stay.
pub fn next_stage_state(state: StageProgressState) -> (r: Option<StageProgressState>)
    ensures
        r == match state {
            StageProgressState::Initial => Some(StageProgressState::Running),
            StageProgressState::Clear => Some(StageProgressState::Cleared),
            _ => None::<StageProgressState>,
        },
{
    match state {
        StageProgressState::Initial => Some(StageProgressState::Running),
        StageProgressState::Clear => Some(StageProgressState::Cleared),
        _ => None,
    }
}

/// The active stage step index.
#[derive(Clone, Copy, Debug)]
pub struct StageProgress {
    pub index: usize,
}

/// The stage is cleared once every step has been applied.
pub fn stage_is_cleared(progress: &StageProgress, step_count: usize) -> (r: bool)
    ensures
        r == (progress.index >= step_count),
{
    progress.index >= step_count
}

/// Takes the next stage step if there is one: returns its index and moves
/// the progress past it.
pub fn take_next_step(progress: &mut StageProgress, step_count: usize) -> (r: Option<usize>)
    ensures
        if old(progress).index < step_count {
            r == Some(old(progress).index) && final(progress).index == old(progress).index + 1
        } else {
            r is None && final(progress).index == old(progress).index
        },
{
    if progress.index < step_count {
        let current = progress.index;
        progress.index = progress.index + 1;
        Some(current)
    } else {
        None
    }
}

/// Resets progression to `start_index` (the step index itself; the stage
/// clock and action timer are reset alongside by the caller).
pub fn reset_stage_progression(progress: &mut StageProgress, start_index: usize) -> (r:
    StageProgressState)
    ensures
        final(progress).index == start_index,
        r == StageProgressState::Initial,
{
    progress.index = start_index;
    StageProgressState::Initial
}

/// Step a restart begins from: the checkpoint step when restarting from a
/// checkpoint, else the first step.
pub fn restart_start_index(from_checkpoint: bool, checkpoint_step: Option<usize>) -> (r: usize)
    requires
        from_checkpoint ==> checkpoint_step is Some,
    ensures
        r == if from_checkpoint {
            checkpoint_step->0
        } else {
            0
        },
{
    if from_checkpoint {
        match checkpoint_step {
            Some(i) => i,
            None => 0,
        }
    } else {
        0
    }
}

/// Lives left after a death.
pub fn lives_after_death(lives: u8) -> (r: u8)
    ensures
        r == if lives > 0 {
            (lives - 1) as u8
        } else {
            0
        },
{
    lives.saturating_sub(1)
}

/// After a death the run continues from the checkpoint only when lives
/// remain and the stage authors a checkpoint; otherwise it is game over.
pub fn death_route(lives: u8, has_checkpoint: bool) -> (r: StageProgressState)
    ensures
        r == if lives > 0 && has_checkpoint {
            StageProgressState::Death
        } else {
            StageProgressState::GameOver
        },
{
    if lives > 0 && has_checkpoint {
        StageProgressState::Death
    } else {
        StageProgressState::GameOver
    }
}

/// A stop step with a maximum duration ends once that duration has elapsed.
pub fn stop_step_finished(started_ns: u64, max_duration_ns: Option<u64>, now_ns: u64) -> (r: bool)
    requires
        max_duration_ns matches Some(d) ==> started_ns + d <= u64::MAX,
    ensures
        r == match max_duration_ns {
            Some(d) => started_ns + d <= now_ns,
            None => false,
        },
{
    match max_duration_ns {
        Some(d) => started_ns + d <= now_ns,
        None => false,
    }
}


/// Toggling pause twice returns to where it started, from running or paused
/// (a cutscene toggles to running).
pub proof fn lemma_toggle_twice(state: GameProgressState)
    requires
        state != GameProgressState::Cutscene,
    ensures
        spec_toggle_game(spec_toggle_game(state)) == state,
{
}

} // verus!
