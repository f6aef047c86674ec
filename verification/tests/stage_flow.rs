use carcinisation::stage::{
    death_route, lives_after_death, next_stage_state, reset_stage_progression, restart_start_index,
    stage_is_cleared, stage_time_should_run, stop_step_finished, take_next_step, toggle_game,
    GameProgressState, StageProgress, StageProgressState,
};

fn run_gate(stage: StageProgressState, game: GameProgressState) -> bool {
    stage_time_should_run(stage, game)
}

fn death_routes_to_continue(lives: u8, has_checkpoint: bool) -> bool {
    death_route(lives, has_checkpoint) == StageProgressState::Death
}

#[test]
fn stage_time_runs_while_running() {
    assert!(run_gate(StageProgressState::Running, GameProgressState::Running));
}

#[test]
fn stage_time_stops_while_paused() {
    assert!(!run_gate(StageProgressState::Running, GameProgressState::Paused));
}

#[test]
fn stage_time_runs_during_cutscene() {
    assert!(run_gate(StageProgressState::Running, GameProgressState::Cutscene));
}

#[test]
fn stage_time_stops_outside_running_stage() {
    assert!(!run_gate(StageProgressState::Death, GameProgressState::Running));
}

#[test]
fn death_with_lives_and_checkpoint_routes_to_continue() {
    assert!(death_routes_to_continue(2, true));
}

#[test]
fn death_with_lives_but_no_checkpoint_routes_to_game_over() {
    assert!(!death_routes_to_continue(2, false));
}

#[test]
fn death_with_no_lives_and_checkpoint_routes_to_game_over() {
    assert!(!death_routes_to_continue(0, true));
}

#[test]
fn death_with_no_lives_and_no_checkpoint_routes_to_game_over() {
    assert!(!death_routes_to_continue(0, false));
}

#[test]
fn reset_stage_progression_uses_start_index() {
    let mut progress = StageProgress { index: 5 };
    let state = reset_stage_progression(&mut progress, 3);
    assert_eq!(progress.index, 3);
    assert_eq!(state, StageProgressState::Initial);
}

#[test]
fn reset_stage_progression_zero_starts_fresh() {
    let mut progress = StageProgress { index: 7 };
    reset_stage_progression(&mut progress, 0);
    assert_eq!(progress.index, 0);
}

#[test]
fn death_routes_to_game_over_when_lives_run_out() {
    assert_eq!(death_route(0, true), StageProgressState::GameOver);
    assert_eq!(death_route(1, true), StageProgressState::Death);
}

#[test]
fn lives_decrease_by_one_and_stop_at_zero() {
    assert_eq!(lives_after_death(3), 2);
    assert_eq!(lives_after_death(1), 0);
    assert_eq!(lives_after_death(0), 0);
}

#[test]
fn steps_are_taken_in_order_until_the_stage_is_cleared() {
    let mut progress = StageProgress { index: 0 };
    assert!(!stage_is_cleared(&progress, 2));
    assert_eq!(take_next_step(&mut progress, 2), Some(0));
    assert_eq!(take_next_step(&mut progress, 2), Some(1));
    assert!(stage_is_cleared(&progress, 2));
    assert_eq!(take_next_step(&mut progress, 2), None);
    assert_eq!(progress.index, 2);
}

#[test]
fn restart_starts_at_checkpoint_only_when_asked() {
    assert_eq!(restart_start_index(true, Some(4)), 4);
    assert_eq!(restart_start_index(false, Some(4)), 0);
    assert_eq!(restart_start_index(false, None), 0);
}

#[test]
fn pausing_toggles_between_running_and_paused() {
    assert_eq!(toggle_game(GameProgressState::Running), GameProgressState::Paused);
    assert_eq!(toggle_game(GameProgressState::Paused), GameProgressState::Running);
    assert_eq!(toggle_game(toggle_game(GameProgressState::Running)), GameProgressState::Running);
}

#[test]
fn stop_step_ends_after_its_maximum_duration() {
    assert!(!stop_step_finished(1_000, Some(500), 1_499));
    assert!(stop_step_finished(1_000, Some(500), 1_500));
    assert!(!stop_step_finished(1_000, None, 1_000_000));
}

#[test]
fn stage_state_machine_moves_forward() {
    assert_eq!(next_stage_state(StageProgressState::Initial), Some(StageProgressState::Running));
    assert_eq!(next_stage_state(StageProgressState::Clear), Some(StageProgressState::Cleared));
    assert_eq!(next_stage_state(StageProgressState::Running), None);
}
