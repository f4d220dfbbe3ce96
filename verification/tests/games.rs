use xpanse::buttons::{shared_press_start, shared_press_step, SharedPressAction, SharedPressWait};
use xpanse::apps::{logger_step, App, ButtonLoggerApp, CubeGameApp, LoggerStep, NesEmulatorApp, SnakeGameApp};
use xpanse::buttons::{press_wait_start, press_wait_step, ButtonRole, Down, Left, PressAction, PressWait, Right, Up, A, B, X, Y};
use xpanse::cube::{cube_color, CubeEffect, CubeInput, CubeState};
use xpanse::metadata::{ModuleDetectResistor, ModuleID, ModuleSlot};
use xpanse::neon_beat::{
    sync_note_model, BeatNote,
    level_bpm, level_tick_ms, ui_score, Game as BeatGame, Judgement, Lane, NeonBeatEffect, NeonBeatInput,
    NeonBeatPhase, NeonBeatSession,
};
use xpanse::registry::Registry;
use xpanse::snake::{
    food_ui, sync_snake_model, SnakeCell,
    AdvanceResult, Cell, Direction, Game as SnakeGame, SnakeEffect, SnakeInput, SnakePhase, SnakeSession, XorShift32,
};
use xpanse::video::FRAME_BUFFER_KIND;

fn four_buttons() -> Registry<u32> {
    let mut registry: Registry<u32> = Registry::new(1);
    let id = ModuleID { md0: ModuleDetectResistor::R1K5, md1: ModuleDetectResistor::R1K6 };
    registry
        .register_groups(
            ModuleSlot::FrontLeft,
            id,
            vec![
                vec![(A::kind(), 1), (Down::kind(), 2)],
                vec![(B::kind(), 3), (Right::kind(), 4)],
                vec![(X::kind(), 5), (Left::kind(), 6)],
                vec![(Y::kind(), 7), (Up::kind(), 8)],
            ],
        )
        .unwrap();
    registry
}

#[test]
fn snake_app_leases_and_returns_the_pad() {
    let mut registry = four_buttons();
    assert!(SnakeGameApp::<u32>::can_run(&registry));
    let app = SnakeGameApp::<u32>::new(&mut registry).unwrap();
    assert_eq!(*app.up.resource(), 8);
    assert_eq!(*app.down.resource(), 2);
    assert_eq!(*app.left.resource(), 6);
    assert_eq!(*app.right.resource(), 4);
    assert!(!SnakeGameApp::<u32>::can_run(&registry));
    assert!(!ButtonLoggerApp::<u32>::can_run(&registry));
    app.release(&mut registry);
    assert!(SnakeGameApp::<u32>::can_run(&registry));
    assert!(ButtonLoggerApp::<u32>::can_run(&registry));
}

#[test]
fn cube_app_cannot_share_buttons() {
    let mut registry = four_buttons();
    // Up..Right use all four physical buttons, so A and B are not free.
    assert!(!CubeGameApp::<u32>::can_run(&registry));
    assert!(CubeGameApp::<u32>::new(&mut registry).is_none());
    assert!(registry.has(A::kind()));
}

#[test]
fn nes_app_needs_the_frame_buffer() {
    let mut registry = four_buttons();
    assert!(!NesEmulatorApp::<u32>::can_run(&registry));
    registry.register_platform(FRAME_BUFFER_KIND, 100);
    // Still not: eight roles on four physical buttons.
    assert!(!NesEmulatorApp::<u32>::can_run(&registry));
    assert_eq!(ButtonLoggerApp::<u32>::name(), "Button Logger");
}

#[test]
fn button_logger_counts_and_exits() {
    assert_eq!(logger_step(0, true), LoggerStep::KeepWatching);
    assert_eq!(logger_step(980, true), LoggerStep::KeepWatching);
    assert_eq!(logger_step(40, false), LoggerStep::Count);
    assert_eq!(logger_step(1000, true), LoggerStep::Exit);
    assert_eq!(logger_step(1000, false), LoggerStep::Exit);
}

#[test]
fn debounced_press() {
    assert_eq!(press_wait_start(true), PressWait::AwaitRelease);
    assert_eq!(press_wait_start(false), PressWait::AwaitPress);
    assert_eq!(press_wait_step(PressWait::AwaitRelease, true), (PressWait::AwaitRelease, PressAction::WaitHighThenDebounce));
    assert_eq!(press_wait_step(PressWait::AwaitRelease, false), (PressWait::Confirm, PressAction::WaitLowThenDebounce));
    assert_eq!(press_wait_step(PressWait::AwaitPress, false), (PressWait::Confirm, PressAction::WaitLowThenDebounce));
    assert_eq!(press_wait_step(PressWait::Confirm, false), (PressWait::Confirm, PressAction::WaitLowThenDebounce));
    assert_eq!(press_wait_step(PressWait::Confirm, true), (PressWait::Pressed, PressAction::Done));
}

// ── snake ────────────────────────────────────────────────────────────────

fn xorshift(mut value: u32) -> u32 {
    value ^= value << 13;
    value ^= value >> 17;
    value ^= value << 5;
    value
}

#[test]
fn xorshift_sequence() {
    let mut rng = XorShift32::new(1);
    assert_eq!(rng.next(), 270_369);
    assert_eq!(rng.next(), xorshift(270_369));
    let mut zero = XorShift32::new(0);
    assert_eq!(zero.0, 0x6d2b_79f5);
    assert_eq!(zero.next(), xorshift(0x6d2b_79f5));
}

/// The `n`-th free cell in board order.
fn nth_free(snake: &[Cell], mut n: usize) -> Option<Cell> {
    for y in 0..13u8 {
        for x in 0..20u8 {
            let cell = Cell { x, y };
            if snake.contains(&cell) {
                continue;
            }
            if n == 0 {
                return Some(cell);
            }
            n -= 1;
        }
    }
    None
}

#[test]
fn new_snake_game() {
    let game = SnakeGame::new(42);
    let start = vec![Cell { x: 10, y: 6 }, Cell { x: 9, y: 6 }, Cell { x: 8, y: 6 }, Cell { x: 7, y: 6 }];
    assert_eq!(game.cells(), start);
    assert_eq!(game.head(), Cell { x: 10, y: 6 });
    assert_eq!(game.score(), 0);
    let r = xorshift(42);
    assert_eq!(game.food(), nth_free(&start, r as usize % 256));
    let ui = game.ui_cells();
    assert_eq!(ui.len(), 4);
    assert_eq!((ui[0].x, ui[0].y), (10, 6));
}

#[test]
fn snake_moves_and_turns() {
    let mut game = SnakeGame::new(42);
    let food = game.food().unwrap();
    assert_ne!(food, Cell { x: 11, y: 6 });
    assert_eq!(game.advance(), AdvanceResult::Moved);
    assert_eq!(game.cells(), vec![Cell { x: 11, y: 6 }, Cell { x: 10, y: 6 }, Cell { x: 9, y: 6 }, Cell { x: 8, y: 6 }]);
    // Reversing is ignored, a turn is queued.
    game.queue_direction(Direction::Left);
    game.queue_direction(Direction::Up);
    assert_eq!(game.advance(), AdvanceResult::Moved);
    assert_eq!(game.head(), Cell { x: 11, y: 5 });
    assert!(Direction::Up.is_opposite(Direction::Down));
    assert!(!Direction::Up.is_opposite(Direction::Left));
}

#[test]
fn snake_hits_the_wall() {
    let mut game = SnakeGame::new(7);
    game.queue_direction(Direction::Up);
    let mut result = AdvanceResult::Moved;
    let mut ticks = 0;
    while result != AdvanceResult::GameOver && ticks < 20 {
        result = game.advance();
        ticks += 1;
    }
    assert_eq!(result, AdvanceResult::GameOver);
    // The head leaves the top row after 7 steps up from row 6, unless it ate on the way.
    assert!(ticks <= 8);
}

#[test]
fn snake_session_quits_on_up_and_down() {
    let mut session = SnakeSession::new(3);
    assert_eq!(session.phase, SnakePhase::Playing);
    assert_eq!(session.on_input(SnakeInput::Pressed(Direction::Left), true, true), SnakeEffect::Unchanged);
    assert_eq!(session.on_input(SnakeInput::Pressed(Direction::Up), true, true), SnakeEffect::Exit);
    assert_eq!(session.phase, SnakePhase::Finished);
}

#[test]
fn snake_session_game_over_then_any_press_leaves() {
    let mut session = SnakeSession::new(7);
    session.on_input(SnakeInput::Pressed(Direction::Up), true, false);
    let mut effect = SnakeEffect::Unchanged;
    for _ in 0..20 {
        effect = session.on_input(SnakeInput::Tick, false, false);
        if session.phase != SnakePhase::Playing {
            break;
        }
    }
    assert_eq!(effect, SnakeEffect::ShowGameOver { won: false });
    assert_eq!(session.on_input(SnakeInput::Tick, false, false), SnakeEffect::Unchanged);
    assert_eq!(session.on_input(SnakeInput::Pressed(Direction::Right), false, false), SnakeEffect::Exit);
}

// ── cube ─────────────────────────────────────────────────────────────────

#[test]
fn cube_moves_within_the_screen() {
    let mut cube = CubeState::new();
    assert_eq!((cube.x, cube.y, cube.color_index), (144, 104, 0));
    assert_eq!(cube.step(CubeInput::Up), CubeEffect::Move);
    assert_eq!(cube.y, 96);
    cube.step(CubeInput::Right);
    assert_eq!(cube.x, 152);
    for _ in 0..40 {
        cube.step(CubeInput::Right);
    }
    assert_eq!(cube.x, 280);
    cube.step(CubeInput::Repeat { up: true, down: false, left: true, right: true });
    assert_eq!((cube.x, cube.y), (280, 88));
    for _ in 0..20 {
        cube.step(CubeInput::Repeat { up: true, down: false, left: false, right: false });
    }
    assert_eq!(cube.y, 0);
    assert_eq!(cube.step(CubeInput::Color), CubeEffect::Recolor);
    assert_eq!(cube.color_index, 1);
    for _ in 0..5 {
        cube.step(CubeInput::Color);
    }
    assert_eq!(cube.color_index, 0);
    assert_eq!(cube.step(CubeInput::Exit), CubeEffect::Exit);
    assert_eq!(cube_color(0), (229, 57, 53));
    assert_eq!(cube_color(5), (0, 137, 123));
}

// ── neon beat ────────────────────────────────────────────────────────────

#[test]
fn neon_beat_perfect_hit() {
    let mut game = BeatGame::new();
    assert_eq!(game.health(), 100);
    assert_eq!(game.judgement(), Judgement::Ready);
    let notes = game.ui_notes();
    assert_eq!(notes.len(), 1);
    assert_eq!((notes[0].lane, notes[0].y), (0, 38));
    for _ in 0..47 {
        assert!(!game.advance());
    }
    game.press(Lane::Left);
    assert_eq!(game.judgement(), Judgement::Perfect);
    assert_eq!(game.combo(), 1);
    assert_eq!(game.score(), 1010);
    assert_eq!(game.health(), 100);
    assert_eq!(game.active_lane_index(), 0);
}

#[test]
fn neon_beat_ghost_tap_and_miss() {
    let mut game = BeatGame::new();
    game.press(Lane::Right);
    assert_eq!(game.judgement(), Judgement::Miss);
    assert_eq!(game.health(), 94);
    let mut missed = false;
    for _ in 0..52 {
        missed = game.advance();
    }
    assert!(missed);
    assert_eq!(game.health(), 82);
    assert!(!game.is_over());
    assert_eq!(Judgement::Perfect.label(), "PERFECT!");
    assert_eq!(Judgement::Miss.kind(), 3);
}

#[test]
fn neon_beat_session_flow() {
    let mut session = NeonBeatSession::new();
    assert_eq!(session.phase, NeonBeatPhase::SelectingLevel);
    assert_eq!(session.level, 2);
    assert_eq!(
        session.on_input(NeonBeatInput::Pressed(Lane::Up), false, false),
        NeonBeatEffect::ShowLevel { shown: 2, bpm: 94 }
    );
    assert_eq!(
        session.on_input(NeonBeatInput::Pressed(Lane::Down), false, false),
        NeonBeatEffect::ShowLevel { shown: 3, bpm: 120 }
    );
    assert_eq!(session.on_input(NeonBeatInput::Tick, false, false), NeonBeatEffect::Unchanged);
    assert_eq!(
        session.on_input(NeonBeatInput::Pressed(Lane::Right), false, false),
        NeonBeatEffect::StartGame { tick_ms: 25 }
    );
    assert_eq!(session.on_input(NeonBeatInput::Tick, false, false), NeonBeatEffect::Redraw { stats: false });
    assert_eq!(session.on_input(NeonBeatInput::Pressed(Lane::Down), true, true), NeonBeatEffect::Exit);
    assert_eq!(session.phase, NeonBeatPhase::Finished);
    assert_eq!(level_tick_ms(0), 80);
    assert_eq!(level_bpm(1), 94);
    assert_eq!(ui_score(5), 5);
}

#[test]
fn xorshift_never_reaches_zero() {
    let mut rng = XorShift32::new(0);
    for _ in 0..10_000 {
        assert_ne!(rng.next(), 0);
    }
}

#[test]
fn food_is_always_on_a_free_cell() {
    for seed in 0..40u32 {
        let mut game = SnakeGame::new(seed);
        let turns = [Direction::Up, Direction::Left, Direction::Down, Direction::Right];
        for tick in 0..60usize {
            if tick % 5 == 0 {
                game.queue_direction(turns[(tick / 5 + seed as usize) % 4]);
            }
            let result = game.advance();
            if result == AdvanceResult::GameOver || result == AdvanceResult::Won {
                break;
            }
            let cells = game.cells();
            for (i, a) in cells.iter().enumerate() {
                assert!(a.x < 20 && a.y < 13);
                assert!(!cells[i + 1..].contains(a));
            }
            if let Some(food) = game.food() {
                assert!(!cells.contains(&food));
            }
            assert_eq!(cells.len(), 4 + game.score() as usize);
        }
    }
}

#[test]
fn shared_button_press() {
    assert_eq!(shared_press_start(true), (SharedPressWait::Releasing, SharedPressAction::Sleep));
    assert_eq!(shared_press_start(false), (SharedPressWait::Waiting, SharedPressAction::Sleep));
    assert_eq!(shared_press_step(SharedPressWait::Releasing, true), (SharedPressWait::Releasing, SharedPressAction::Sleep));
    assert_eq!(shared_press_step(SharedPressWait::Releasing, false), (SharedPressWait::Waiting, SharedPressAction::Sleep));
    assert_eq!(shared_press_step(SharedPressWait::Waiting, false), (SharedPressWait::Waiting, SharedPressAction::Sleep));
    assert_eq!(shared_press_step(SharedPressWait::Waiting, true), (SharedPressWait::Pressed, SharedPressAction::Done));
}

#[test]
fn ui_snake_follows_the_game() {
    let mut game = SnakeGame::new(42);
    let mut model = game.ui_cells();
    for _ in 0..5 {
        let result = game.advance();
        assert!(result == AdvanceResult::Moved || result == AdvanceResult::Ate);
        sync_snake_model(&mut model, &game);
        assert_eq!(model, game.ui_cells());
    }
    assert_eq!(model[0], SnakeCell { x: 15, y: 6 });
    assert_eq!(food_ui(Some(Cell { x: 3, y: 4 })), (3, 4));
    assert_eq!(food_ui(None), (-1, -1));
}

#[test]
fn ui_notes_follow_the_game() {
    let mut game = BeatGame::new();
    let mut model = vec![BeatNote { lane: 3, y: 0 }; 5];
    sync_note_model(&mut model, &game);
    assert_eq!(model, game.ui_notes());
    for _ in 0..25 {
        game.advance();
    }
    sync_note_model(&mut model, &game);
    assert_eq!(model, game.ui_notes());
    assert_eq!(model.len(), 3);
}

#[test]
fn button_logger_runs_exactly_when_a_is_offered() {
    let mut registry: Registry<u32> = Registry::new(9);
    assert_eq!(ButtonLoggerApp::<u32>::can_run(&registry), registry.has(A::kind()));
    assert!(ButtonLoggerApp::<u32>::new(&mut registry).is_none());
    registry.register(ModuleSlot::FrontLeft, ModuleID { md0: ModuleDetectResistor::R1K, md1: ModuleDetectResistor::R1K }, A::kind(), 5);
    assert!(registry.has(A::kind()));
    assert!(ButtonLoggerApp::<u32>::can_run(&registry));
    let app = ButtonLoggerApp::<u32>::new(&mut registry).unwrap();
    assert!(!registry.has(A::kind()));
    app.release(&mut registry);
    assert_eq!(registry.resource_count(A::kind()), 1);
}
