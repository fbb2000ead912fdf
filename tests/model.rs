use cellular_sandbox::model::{next_brush_size, AnimationState, ColRow, DrawUserState};
use cellular_sandbox::rules::Ruleset;
use cellular_sandbox::world::{Cell, World};

#[test]
fn animation_state_transitions() {
    assert_eq!(AnimationState::Running.toggle(), AnimationState::Paused);
    assert_eq!(AnimationState::Paused.toggle(), AnimationState::Running);
    assert_eq!(AnimationState::AdvanceFrame.toggle(), AnimationState::Running);
    assert_eq!(AnimationState::Running.frame_step(), AnimationState::Paused);
    assert_eq!(AnimationState::Paused.frame_step(), AnimationState::AdvanceFrame);
    assert_eq!(AnimationState::Running.next(), AnimationState::Running);
    assert_eq!(AnimationState::AdvanceFrame.next(), AnimationState::Paused);
    assert!(AnimationState::Running.is_running());
    assert!(AnimationState::AdvanceFrame.is_running());
    assert!(!AnimationState::Paused.is_running());
}

#[test]
fn draw_user_state_cycles() {
    assert_eq!(DrawUserState::Draw.toggle(), DrawUserState::PaintAndDisappear);
    assert_eq!(DrawUserState::PaintAndDisappear.toggle(), DrawUserState::Off);
    assert_eq!(DrawUserState::Off.toggle(), DrawUserState::Draw);
}

#[test]
fn brush_size_is_clamped_and_bounded_by_board() {
    assert_eq!(next_brush_size(3, 1, 256, 256), 4);
    assert_eq!(next_brush_size(7, 1, 256, 256), 7);
    assert_eq!(next_brush_size(6, 1, 256, 256), 7);
    assert_eq!(next_brush_size(0, -3, 256, 256), 0);
    assert_eq!(next_brush_size(9, 5, 4096, 4096), 10);
    assert_eq!(next_brush_size(3, 1, 256, 16), 3);
    assert_eq!(ColRow::default(), ColRow { col: 0, row: 0 });
}

#[test]
fn paint_ruleset_then_liveness() {
    let mut world = World::new(3, 3);
    world.paint_ruleset(4, Ruleset::Seeds);
    assert_eq!(world.board().cells[4], Cell { ruleset: Ruleset::Seeds, state: 0 });
    world.swap();
    assert_eq!(world.board().cells[4].ruleset, Ruleset::Seeds);
    world.swap();
    world.paint_liveness(4, 4);
    assert_eq!(world.board().cells[4], Cell { ruleset: Ruleset::Seeds, state: 1 });
    // A cell of another ruleset is left alone.
    world.paint_liveness(4, 0);
    assert_eq!(world.board().cells[0], Cell { ruleset: Ruleset::Life, state: 0 });
    world.paint_liveness(0, 1);
    assert_eq!(world.board().cells[1], Cell { ruleset: Ruleset::Life, state: 1 });
}
