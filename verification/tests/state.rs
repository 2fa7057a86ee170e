use game::components::{Consumable, Player, TempCamera};
use game::game_3d;
use game::grid::{column_span, grid_columns, grid_rows};
use game::state::{begin_play, GameState, MouseMode};

#[test]
fn game_state_queries() {
    assert!(GameState::Playing.is_playing());
    assert!(!GameState::Paused.is_playing());
    assert!(!GameState::MainMenu.is_playing());
    assert!(GameState::MainMenu.is_main_menu());
    assert!(!GameState::Paused.is_main_menu());
    assert_eq!(GameState::default(), GameState::MainMenu);
}

#[test]
fn pause_key_toggles_pause() {
    assert_eq!(
        GameState::Playing.on_pause_input(true),
        (GameState::Paused, Some(MouseMode::Noop))
    );
    assert_eq!(
        GameState::Paused.on_pause_input(true),
        (GameState::Playing, Some(MouseMode::LockedInvisible))
    );
    assert_eq!(GameState::MainMenu.on_pause_input(true), (GameState::MainMenu, None));
    assert_eq!(GameState::Playing.on_pause_input(false), (GameState::Playing, None));
    assert_eq!(GameState::Paused.on_pause_input(false), (GameState::Paused, None));
}

#[test]
fn pausing_twice_resumes() {
    let (paused, _) = GameState::Playing.on_pause_input(true);
    let (again, mode) = paused.on_pause_input(true);
    assert_eq!(again, GameState::Playing);
    assert_eq!(mode, Some(MouseMode::LockedInvisible));
}

#[test]
fn play_begins_once() {
    let mut camera = Some(42u32);
    assert_eq!(begin_play(GameState::MainMenu, &mut camera), None);
    assert_eq!(camera, Some(42));
    assert_eq!(begin_play(GameState::Playing, &mut camera), Some(42));
    assert_eq!(camera, None);
    assert_eq!(begin_play(GameState::Playing, &mut camera), None);
}

#[test]
fn grid_rows_keep_a_margin() {
    assert_eq!(grid_rows(0), 1);
    assert_eq!(grid_rows(1), 1);
    assert_eq!(grid_rows(2), 1);
    assert_eq!(grid_rows(9), 8);
}

#[test]
fn grid_columns_hold_all_slots() {
    assert_eq!(grid_columns(0, 3), 1);
    assert_eq!(grid_columns(1, 3), 1);
    assert_eq!(grid_columns(3, 3), 1);
    assert_eq!(grid_columns(4, 3), 2);
    assert_eq!(grid_columns(7, 3), 3);
    assert_eq!(grid_columns(5, 1), 5);
    assert_eq!(grid_columns(usize::MAX, 2), usize::MAX / 2 + 1);
}

#[test]
fn column_spans_split_the_slots() {
    assert_eq!(column_span(7, 3, 0), (0, 3));
    assert_eq!(column_span(7, 3, 1), (3, 6));
    assert_eq!(column_span(7, 3, 2), (6, 7));
    assert_eq!(column_span(7, 3, 3), (7, 7));
    assert_eq!(column_span(0, 3, 0), (0, 0));
    assert_eq!(column_span(usize::MAX, 2, usize::MAX), (usize::MAX, usize::MAX));
    let n = 10;
    let rows = grid_rows(5);
    let mut next = 0;
    for col in 0..grid_columns(n, rows) {
        let (start, end) = column_span(n, rows, col);
        assert_eq!(start, next);
        assert!(start < end);
        next = end;
    }
    assert_eq!(next, n);
}

#[test]
fn game_3d_state() {
    assert!(game_3d::GameState::Playing.is_playing());
    assert!(!game_3d::GameState::MainMenu.is_playing());
    assert_eq!(game_3d::GameState::default(), game_3d::GameState::MainMenu);
    assert_eq!(game_3d::init(), game_3d::GameContext);
    assert_eq!(game_3d::TempCamera, game_3d::TempCamera);
}

#[test]
fn marker_components() {
    let c = Consumable { uses: 3 };
    assert_eq!(c.uses, 3);
    assert_eq!(Player, Player::default());
    assert_eq!(TempCamera, TempCamera::default());
}
