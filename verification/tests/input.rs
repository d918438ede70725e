use minesweeper::board::{Board, BoardError};
use minesweeper::input::{
    click_detection, tile_flag, tile_reveal, Bound, ButtonState, ClickEvent, ClickType,
    MouseButton, MouseButtons, Position, Selectable, SelectableTile, SpriteUpdate, TileEntity,
};
use minesweeper::layout::{
    selectable_tiles, spawn_tiles, tile_bound, tile_center, tile_origin, TILE_SIZE,
};
use minesweeper::tile::{TileState, TileType, BOMB_INDEX, FLAGGED_INDEX, HIDDEN_INDEX};

fn at(x: i64, y: i64) -> Position {
    Position { x, y }
}

fn click(x: i64, y: i64, click_type: ClickType, button: MouseButton) -> ClickEvent {
    ClickEvent { position: at(x, y), click_type, button }
}

fn left_click(x: i64, y: i64) -> ClickEvent {
    click(x, y, ClickType::Clicked, MouseButton::Left)
}

fn right_click(x: i64, y: i64) -> ClickEvent {
    click(x, y, ClickType::Clicked, MouseButton::Right)
}

#[test]
fn bound_is_half_open() {
    let bound = Bound::new(at(-40, 0), at(40, 80));
    assert!(bound.in_bounds(at(-40, 0)));
    assert!(bound.in_bounds(at(39, 79)));
    assert!(bound.in_bounds(at(0, 40)));
    assert!(!bound.in_bounds(at(40, 40)));
    assert!(!bound.in_bounds(at(0, 80)));
    assert!(!bound.in_bounds(at(40, 80)));
    assert!(!bound.in_bounds(at(-41, 0)));
    assert!(!bound.in_bounds(at(-40, -1)));
}

#[test]
fn bound_keeps_its_corners() {
    let bound = Bound::new(at(1, 2), at(3, 5));
    assert_eq!(bound.bottom_left(), at(1, 2));
    assert_eq!(bound.top_right(), at(3, 5));
    let selectable = Selectable::new(at(1, 2), at(3, 5));
    assert_eq!(selectable.bound(), bound);
}

#[test]
fn shared_edge_belongs_to_the_neighbor() {
    let left = tile_bound(4, 4, 1, 1);
    let right = tile_bound(4, 4, 2, 1);
    let above = tile_bound(4, 4, 1, 2);
    let on_right_edge = at(left.top_right().x, left.bottom_left().y + 10);
    assert!(!left.in_bounds(on_right_edge));
    assert!(right.in_bounds(on_right_edge));
    let on_top_edge = at(left.bottom_left().x + 10, left.top_right().y);
    assert!(!left.in_bounds(on_top_edge));
    assert!(above.in_bounds(on_top_edge));
}

#[test]
fn every_position_on_the_board_lies_in_one_region() {
    let (width, height) = (3, 2);
    let tiles = selectable_tiles(width, height);
    for px in -130..130 {
        for py in -90..90 {
            let hits = tiles.iter().filter(|t| t.selectable.bound().in_bounds(at(px, py))).count();
            let on_board = (-120..120).contains(&px) && (-80..80).contains(&py);
            assert_eq!(hits, if on_board { 1 } else { 0 }, "at ({}, {})", px, py);
        }
    }
}

#[test]
fn tile_origin_centres_the_board() {
    assert_eq!(TILE_SIZE, 80);
    assert_eq!(tile_origin(16, 0), -640);
    assert_eq!(tile_origin(16, 15), 560);
    assert_eq!(tile_origin(9, 0), -360);
    assert_eq!(tile_origin(3, 1), -40);
    assert_eq!(tile_origin(1, 0), -40);
    assert_eq!(tile_origin(0, 0), 0);
    assert_eq!(tile_origin(u32::MAX, u32::MAX), 40 * (u32::MAX as i64));
}

#[test]
fn tile_bound_and_center() {
    let bound = tile_bound(16, 9, 0, 0);
    assert_eq!(bound.bottom_left(), at(-640, -360));
    assert_eq!(bound.top_right(), at(-560, -280));
    assert_eq!(tile_center(16, 9, 0, 0), at(-600, -320));
    let bound = tile_bound(16, 9, 15, 8);
    assert_eq!(bound.bottom_left(), at(560, 280));
    assert_eq!(bound.top_right(), at(640, 360));
    assert_eq!(tile_center(16, 9, 15, 8), at(600, 320));
}

#[test]
fn selectable_tiles_go_column_by_column() {
    let tiles = selectable_tiles(3, 2);
    assert_eq!(tiles.len(), 6);
    let coordinates: Vec<(usize, usize)> = tiles.iter().map(|t| (t.tile.x, t.tile.y)).collect();
    assert_eq!(coordinates, vec![(0, 0), (0, 1), (1, 0), (1, 1), (2, 0), (2, 1)]);
    for tile in &tiles {
        let bound = tile_bound(3, 2, tile.tile.x as u32, tile.tile.y as u32);
        assert_eq!(tile.selectable.bound(), bound);
    }
    assert!(selectable_tiles(0, 5).is_empty());
    assert!(selectable_tiles(5, 0).is_empty());
}

#[test]
fn spawn_tiles_gives_board_and_entities() {
    let (board, tiles) = spawn_tiles(4, 3, 5).unwrap();
    assert_eq!(board.width(), 4);
    assert_eq!(board.height(), 3);
    assert_eq!(tiles.len(), 12);
    let mut mines = 0;
    for tile in &tiles {
        assert!(tile.tile.x < 4 && tile.tile.y < 3);
        assert_eq!(board[(tile.tile.x, tile.tile.y)].state, TileState::Hidden);
        if board[(tile.tile.x, tile.tile.y)].is_bomb() {
            mines += 1;
        }
    }
    assert_eq!(mines, 5);
}

#[test]
fn spawn_tiles_refuses_more_mines_than_tiles() {
    assert_eq!(spawn_tiles(4, 3, 13).unwrap_err(), BoardError::TooManyMines);
}

#[test]
fn button_state_follows_a_press() {
    let mut state = ButtonState::Idle;
    let mut seen = Vec::new();
    for down in [false, true, true, true, false, false, true, false, true] {
        state = state.next(down);
        seen.push(state);
    }
    assert_eq!(
        seen,
        vec![
            ButtonState::Idle,
            ButtonState::Pressed,
            ButtonState::Held,
            ButtonState::Held,
            ButtonState::Released,
            ButtonState::Idle,
            ButtonState::Pressed,
            ButtonState::Released,
            ButtonState::Pressed,
        ]
    );
}

#[test]
fn button_state_reports_click_types() {
    assert_eq!(ButtonState::Idle.click_type(), None);
    assert_eq!(ButtonState::Pressed.click_type(), Some(ClickType::Clicked));
    assert_eq!(ButtonState::Held.click_type(), Some(ClickType::Held));
    assert_eq!(ButtonState::Released.click_type(), Some(ClickType::Released));
}

#[test]
fn click_detection_reports_left_then_right() {
    let mut buttons = MouseButtons::new();
    let clicks = click_detection(&mut buttons, Some(at(5, 7)), true, true);
    assert_eq!(clicks, vec![left_click(5, 7), right_click(5, 7)]);
    let clicks = click_detection(&mut buttons, Some(at(6, 7)), true, false);
    assert_eq!(
        clicks,
        vec![
            click(6, 7, ClickType::Held, MouseButton::Left),
            click(6, 7, ClickType::Released, MouseButton::Right),
        ]
    );
    let clicks = click_detection(&mut buttons, Some(at(6, 8)), false, false);
    assert_eq!(clicks, vec![click(6, 8, ClickType::Released, MouseButton::Left)]);
    let clicks = click_detection(&mut buttons, Some(at(6, 8)), false, false);
    assert_eq!(clicks, vec![]);
    assert_eq!(buttons, MouseButtons::new());
}

#[test]
fn click_detection_without_position_reports_nothing() {
    let mut buttons = MouseButtons::new();
    let clicks = click_detection(&mut buttons, None, true, false);
    assert!(clicks.is_empty());
    assert_eq!(buttons.left, ButtonState::Pressed);
    assert_eq!(buttons.right, ButtonState::Idle);
    let clicks = click_detection(&mut buttons, Some(at(0, 0)), true, false);
    assert_eq!(clicks, vec![click(0, 0, ClickType::Held, MouseButton::Left)]);
}

#[test]
fn holding_the_left_button_reveals_once() {
    let tiles = selectable_tiles(3, 3);
    let mut board = Board::new(3, 3);
    let mut buttons = MouseButtons::new();
    let mut updates = Vec::new();
    let positions = [at(0, 0), at(10, 10), at(100, 100), at(-100, -100), at(-100, 100)];
    for position in positions {
        let clicks = click_detection(&mut buttons, Some(position), true, false);
        updates.extend(tile_reveal(&tiles, &mut board, &clicks));
    }
    assert_eq!(updates, vec![SpriteUpdate { entity: 4, index: 0 }]);
    let mut visible = 0;
    for x in 0..3 {
        for y in 0..3 {
            if board.get_state(x, y) == TileState::Visable {
                visible += 1;
            }
        }
    }
    assert_eq!(visible, 1);
    assert_eq!(board.get_state(1, 1), TileState::Visable);
}

#[test]
fn releasing_and_pressing_again_reveals_again() {
    let tiles = selectable_tiles(3, 3);
    let mut board = Board::new(3, 3);
    let mut buttons = MouseButtons::new();
    let mut updates = Vec::new();
    for (position, down) in [(at(0, 0), true), (at(100, 100), false), (at(100, 100), true)] {
        let clicks = click_detection(&mut buttons, Some(position), down, false);
        updates.extend(tile_reveal(&tiles, &mut board, &clicks));
    }
    assert_eq!(
        updates,
        vec![SpriteUpdate { entity: 4, index: 0 }, SpriteUpdate { entity: 8, index: 0 }]
    );
}

#[test]
fn tile_reveal_shows_the_content() {
    let tiles = selectable_tiles(2, 2);
    let mut board = Board::new(2, 2);
    board.set_bomb(0, 0);
    board.calc_all_neighbors();
    let clicks = vec![left_click(-80, -80), left_click(0, 0)];
    let updates = tile_reveal(&tiles, &mut board, &clicks);
    assert_eq!(
        updates,
        vec![SpriteUpdate { entity: 0, index: BOMB_INDEX }, SpriteUpdate { entity: 3, index: 1 }]
    );
    assert_eq!(board.get_state(0, 0), TileState::Visable);
    assert_eq!(board.get_state(1, 1), TileState::Visable);
    assert_eq!(board.get_state(1, 0), TileState::Hidden);
    assert_eq!(board.get_state(0, 1), TileState::Hidden);
    assert_eq!(board[(0, 0)].tile_type, TileType::Bomb);
}

#[test]
fn tile_reveal_on_a_flagged_tile_changes_nothing() {
    let tiles = selectable_tiles(2, 2);
    let mut board = Board::new(2, 2);
    board.set_state(1, 0, TileState::Flagged);
    let updates = tile_reveal(&tiles, &mut board, &vec![left_click(10, -10)]);
    assert!(updates.is_empty());
    assert_eq!(board.get_state(1, 0), TileState::Flagged);
}

#[test]
fn tile_reveal_listens_to_left_clicks_only() {
    let tiles = selectable_tiles(2, 2);
    let mut board = Board::new(2, 2);
    let clicks = vec![
        right_click(0, 0),
        click(0, 0, ClickType::Held, MouseButton::Left),
        click(0, 0, ClickType::Released, MouseButton::Left),
    ];
    assert!(tile_reveal(&tiles, &mut board, &clicks).is_empty());
    assert_eq!(board.get_state(1, 1), TileState::Hidden);
}

#[test]
fn tile_flag_toggles_the_flag() {
    let tiles = selectable_tiles(2, 2);
    let mut board = Board::new(2, 2);
    let updates = tile_flag(&tiles, &mut board, &vec![right_click(0, 0)]);
    assert_eq!(updates, vec![SpriteUpdate { entity: 3, index: FLAGGED_INDEX }]);
    assert_eq!(board.get_state(1, 1), TileState::Flagged);
    let updates = tile_flag(&tiles, &mut board, &vec![right_click(79, 79)]);
    assert_eq!(updates, vec![SpriteUpdate { entity: 3, index: HIDDEN_INDEX }]);
    assert_eq!(board.get_state(1, 1), TileState::Hidden);
    let updates = tile_flag(&tiles, &mut board, &vec![right_click(0, 0), right_click(0, 0)]);
    assert_eq!(
        updates,
        vec![
            SpriteUpdate { entity: 3, index: FLAGGED_INDEX },
            SpriteUpdate { entity: 3, index: HIDDEN_INDEX },
        ]
    );
    assert_eq!(board.get_state(1, 1), TileState::Hidden);
}

#[test]
fn tile_flag_on_a_revealed_tile_changes_nothing() {
    let tiles = selectable_tiles(2, 2);
    let mut board = Board::new(2, 2);
    board.set_state(0, 1, TileState::Visable);
    let updates = tile_flag(&tiles, &mut board, &vec![right_click(-1, 0)]);
    assert!(updates.is_empty());
    assert_eq!(board.get_state(0, 1), TileState::Visable);
}

#[test]
fn tile_flag_listens_to_right_clicks_only() {
    let tiles = selectable_tiles(2, 2);
    let mut board = Board::new(2, 2);
    let clicks = vec![
        left_click(0, 0),
        click(0, 0, ClickType::Held, MouseButton::Right),
        click(0, 0, ClickType::Released, MouseButton::Right),
    ];
    assert!(tile_flag(&tiles, &mut board, &clicks).is_empty());
    assert_eq!(board.get_state(1, 1), TileState::Hidden);
}

#[test]
fn click_outside_the_board_changes_nothing() {
    let tiles = selectable_tiles(2, 2);
    let mut board = Board::new(2, 2);
    let clicks = vec![left_click(80, 0), left_click(-81, 0), left_click(0, 80), left_click(0, -81)];
    assert!(tile_reveal(&tiles, &mut board, &clicks).is_empty());
    let clicks = vec![right_click(80, 0), right_click(1000, 1000)];
    assert!(tile_flag(&tiles, &mut board, &clicks).is_empty());
    for x in 0..2 {
        for y in 0..2 {
            assert_eq!(board.get_state(x, y), TileState::Hidden);
        }
    }
}

#[test]
fn overlapping_regions_are_all_hit() {
    let tiles = vec![
        SelectableTile { selectable: Selectable::new(at(0, 0), at(10, 10)), tile: TileEntity { x: 0, y: 0 } },
        SelectableTile { selectable: Selectable::new(at(5, 5), at(15, 15)), tile: TileEntity { x: 1, y: 0 } },
        SelectableTile { selectable: Selectable::new(at(0, 0), at(10, 10)), tile: TileEntity { x: 0, y: 0 } },
    ];
    let mut board = Board::new(2, 1);
    let updates = tile_reveal(&tiles, &mut board, &vec![left_click(7, 7)]);
    assert_eq!(
        updates,
        vec![SpriteUpdate { entity: 0, index: 0 }, SpriteUpdate { entity: 1, index: 0 }]
    );
    let updates = tile_flag(&tiles, &mut board, &vec![right_click(2, 2)]);
    assert!(updates.is_empty());
    let mut board = Board::new(2, 1);
    let updates = tile_flag(&tiles, &mut board, &vec![right_click(2, 2)]);
    assert_eq!(
        updates,
        vec![
            SpriteUpdate { entity: 0, index: FLAGGED_INDEX },
            SpriteUpdate { entity: 2, index: HIDDEN_INDEX },
        ]
    );
    assert_eq!(board.get_state(0, 0), TileState::Hidden);
}

#[test]
fn holding_the_right_button_flags_once() {
    let tiles = selectable_tiles(3, 3);
    let mut board = Board::new(3, 3);
    let mut buttons = MouseButtons::new();
    let mut updates = Vec::new();
    for _ in 0..4 {
        let clicks = click_detection(&mut buttons, Some(at(-100, -100)), false, true);
        updates.extend(tile_flag(&tiles, &mut board, &clicks));
    }
    assert_eq!(updates, vec![SpriteUpdate { entity: 0, index: FLAGGED_INDEX }]);
    assert_eq!(board.get_state(0, 0), TileState::Flagged);
}

#[test]
fn press_without_position_in_the_first_cycle_is_lost() {
    let tiles = selectable_tiles(3, 3);
    let mut board = Board::new(3, 3);
    let mut buttons = MouseButtons::new();
    let mut updates = Vec::new();
    for position in [None, Some(at(0, 0)), Some(at(0, 0))] {
        let clicks = click_detection(&mut buttons, position, true, false);
        updates.extend(tile_reveal(&tiles, &mut board, &clicks));
    }
    assert!(updates.is_empty());
    assert_eq!(board.get_state(1, 1), TileState::Hidden);
}

#[test]
fn presses_keep_the_bombs_and_the_counts() {
    let (mut board, tiles) = spawn_tiles(5, 4, 7).unwrap();
    let before: Vec<TileType> = tiles.iter().map(|t| board[(t.tile.x, t.tile.y)].tile_type).collect();
    let mut clicks = Vec::new();
    for px in [-199, -100, -1, 0, 90, 199] {
        for py in [-159, -3, 40, 159] {
            clicks.push(left_click(px, py));
            clicks.push(right_click(py, px));
        }
    }
    tile_flag(&tiles, &mut board, &clicks);
    tile_reveal(&tiles, &mut board, &clicks);
    let after: Vec<TileType> = tiles.iter().map(|t| board[(t.tile.x, t.tile.y)].tile_type).collect();
    assert_eq!(before, after);
}

#[test]
fn reveal_reports_the_tile_under_the_pointer() {
    let (width, height) = (4, 3);
    let tiles = selectable_tiles(width, height);
    for x in 0..width {
        for y in 0..height {
            let mut board = Board::new(width as usize, height as usize);
            let center = tile_center(width, height, x, y);
            let updates = tile_reveal(&tiles, &mut board, &vec![left_click(center.x, center.y)]);
            let entity = (x * height + y) as usize;
            assert_eq!(updates, vec![SpriteUpdate { entity, index: 0 }]);
            assert_eq!(tiles[entity].tile, TileEntity { x: x as usize, y: y as usize });
            assert_eq!(board.get_state(x as usize, y as usize), TileState::Visable);
        }
    }
}
