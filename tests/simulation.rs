use sand_sim::blocks::block::{Block, Material};
use sand_sim::blocks::sand::Sand;
use sand_sim::blocks::stone::Stone;
use sand_sim::components::block_types::BlockType;
use sand_sim::components::cell_size::CellSize;
use sand_sim::components::directions::Direction;
use sand_sim::components::grid_position::{GridPosition, Point, Viewport};
use sand_sim::components::pixel::Color;
use sand_sim::state::{collision_counts, MainState};

fn cs8() -> CellSize {
    CellSize::new(8, 8)
}

fn at(state: &MainState, x: i32, y: i32) -> Option<Material> {
    let p = GridPosition::new(x, y, state.cell_size);
    state.blocks.iter().copied().find(|m| m.get_position() == p)
}

fn all_true(state: &MainState) -> Vec<bool> {
    vec![true; state.blocks.len()]
}

#[test]
fn sand_falls_then_rests_on_small_viewport() {
    let mut state = MainState::new(cs8());
    let viewport = Viewport { width: 16, height: 16 };
    state.spawn_block(BlockType::Sand, GridPosition::new(0, 0, cs8()));
    let lost = state.tick(viewport);
    assert!(lost.is_empty());
    assert_eq!(state.blocks.len(), 1);
    let sand = state.blocks[0];
    assert_eq!(sand.get_position().x, 0);
    assert_eq!(sand.get_position().y, 8);
    assert!(sand.is_falling());
    let lost = state.tick(viewport);
    assert!(lost.is_empty());
    let sand = state.blocks[0];
    assert_eq!(sand.get_position().y, 8);
    assert!(!sand.is_falling());
}

#[test]
fn stacked_sand_settles_without_collisions() {
    let mut state = MainState::new(cs8());
    let viewport = Viewport { width: 80, height: 80 };
    state.spawn_block(BlockType::Stone, GridPosition::new(4, 5, cs8()));
    state.spawn_block(BlockType::Sand, GridPosition::new(4, 4, cs8()));
    state.spawn_block(BlockType::Sand, GridPosition::new(4, 3, cs8()));
    // The lower sand slides left off the stone; the upper one waits, since
    // the sand below it was still falling when the tick began.
    let choices = all_true(&state);
    let lost = state.tick_with(viewport, &choices);
    assert!(lost.is_empty());
    assert!(at(&state, 3, 5).is_some());
    assert!(at(&state, 4, 3).is_some());
    assert!(at(&state, 4, 4).is_none());
    // The upper sand then falls into the slot that the lower one left.
    let choices = all_true(&state);
    let lost = state.tick_with(viewport, &choices);
    assert!(lost.is_empty());
    assert!(at(&state, 4, 4).map(|m| m.is_falling()).unwrap_or(false));
    for _ in 0..40 {
        let lost = state.tick(viewport);
        assert!(lost.is_empty());
        assert_eq!(state.blocks.len(), 3);
    }
    assert!(matches!(at(&state, 4, 5), Some(Material::Stone(_))));
}

#[test]
fn spawn_on_taken_cell_keeps_first_material() {
    let mut state = MainState::new(cs8());
    let p = GridPosition::new(2, 2, cs8());
    state.spawn_block(BlockType::Sand, p);
    state.spawn_block(BlockType::Stone, p);
    assert_eq!(state.blocks.len(), 1);
    assert!(matches!(state.blocks[0], Material::Sand(_)));
}

#[test]
fn eraser_places_nothing() {
    let mut state = MainState::new(cs8());
    state.spawn_block(BlockType::Eraser, GridPosition::new(1, 1, cs8()));
    assert!(state.blocks.is_empty());
}

#[test]
fn erase_twice_is_erase_once() {
    let mut state = MainState::new(cs8());
    let p = GridPosition::new(1, 1, cs8());
    let q = GridPosition::new(2, 1, cs8());
    state.spawn_block(BlockType::Sand, p);
    state.spawn_block(BlockType::Stone, q);
    state.erase_block(p);
    let once = state.blocks.clone();
    state.erase_block(p);
    assert_eq!(state.blocks, once);
    assert_eq!(state.blocks.len(), 1);
    assert_eq!(state.blocks[0].get_position(), q);
}

#[test]
fn erase_of_empty_cell_changes_nothing() {
    let mut state = MainState::new(cs8());
    state.spawn_block(BlockType::Sand, GridPosition::new(1, 1, cs8()));
    state.erase_block(GridPosition::new(5, 5, cs8()));
    assert_eq!(state.blocks.len(), 1);
}

#[test]
fn free_cell_below_means_one_cell_down() {
    let mut state = MainState::new(cs8());
    let viewport = Viewport { width: 160, height: 160 };
    state.spawn_block(BlockType::Sand, GridPosition::new(3, 2, cs8()));
    state.tick(viewport);
    let sand = state.blocks[0];
    assert_eq!(sand.get_position(), GridPosition::new(3, 3, cs8()));
    assert!(sand.is_falling());
    assert_eq!(sand.get_pixel().color, Color::red());
}

#[test]
fn blocked_sand_takes_the_only_open_diagonal() {
    let mut state = MainState::new(cs8());
    let viewport = Viewport { width: 160, height: 160 };
    state.spawn_block(BlockType::Stone, GridPosition::new(3, 4, cs8()));
    state.spawn_block(BlockType::Stone, GridPosition::new(2, 4, cs8()));
    state.spawn_block(BlockType::Sand, GridPosition::new(3, 3, cs8()));
    let choices = all_true(&state);
    state.tick_with(viewport, &choices);
    let sand = at(&state, 4, 4).expect("sand slid to the right");
    assert!(!sand.is_falling());
    assert_eq!(sand.get_pixel().color, Color::black());
}

#[test]
fn blocked_sand_with_no_open_diagonal_stays() {
    let mut state = MainState::new(cs8());
    let viewport = Viewport { width: 160, height: 160 };
    for x in 2..5 {
        state.spawn_block(BlockType::Stone, GridPosition::new(x, 4, cs8()));
    }
    state.spawn_block(BlockType::Sand, GridPosition::new(3, 3, cs8()));
    for _ in 0..5 {
        state.tick(viewport);
    }
    assert!(at(&state, 3, 3).is_some());
    assert_eq!(state.blocks.len(), 4);
}

#[test]
fn sand_on_falling_sand_waits() {
    let mut state = MainState::new(cs8());
    let viewport = Viewport { width: 160, height: 160 };
    state.spawn_block(BlockType::Stone, GridPosition::new(3, 5, cs8()));
    state.spawn_block(BlockType::Sand, GridPosition::new(3, 4, cs8()));
    state.spawn_block(BlockType::Sand, GridPosition::new(3, 3, cs8()));
    let choices = vec![false; state.blocks.len()];
    state.tick_with(viewport, &choices);
    // The upper sand rests on sand that was falling: it neither falls nor slides.
    assert!(at(&state, 3, 3).is_some());
    assert!(at(&state, 4, 5).is_some());
}

#[test]
fn diagonal_off_screen_blocks_the_slide() {
    let mut state = MainState::new(cs8());
    let viewport = Viewport { width: 16, height: 160 };
    state.spawn_block(BlockType::Stone, GridPosition::new(1, 4, cs8()));
    state.spawn_block(BlockType::Sand, GridPosition::new(1, 3, cs8()));
    // Right diagonal (2, 4) is off screen; choosing it leaves the sand put.
    let choices = vec![false; state.blocks.len()];
    state.tick_with(viewport, &choices);
    assert!(at(&state, 1, 3).is_some());
    // Choosing left moves it to (0, 4).
    let choices = vec![true; state.blocks.len()];
    state.tick_with(viewport, &choices);
    assert!(at(&state, 0, 4).is_some());
}

#[test]
fn both_diagonals_open_split_roughly_evenly() {
    let viewport = Viewport { width: 160, height: 160 };
    let mut left = 0;
    let trials = 400;
    for _ in 0..trials {
        let mut state = MainState::new(cs8());
        state.spawn_block(BlockType::Stone, GridPosition::new(5, 5, cs8()));
        state.spawn_block(BlockType::Sand, GridPosition::new(5, 4, cs8()));
        state.tick(viewport);
        if at(&state, 4, 5).is_some() {
            left += 1;
        } else {
            assert!(at(&state, 6, 5).is_some());
        }
    }
    assert!(left > trials / 4 && left < 3 * trials / 4, "left = {}", left);
}

#[test]
fn stone_never_moves() {
    let mut state = MainState::new(cs8());
    let viewport = Viewport { width: 160, height: 160 };
    let stone_at = GridPosition::new(5, 2, cs8());
    state.spawn_block(BlockType::Stone, stone_at);
    state.spawn_block(BlockType::Sand, GridPosition::new(5, 1, cs8()));
    state.spawn_block(BlockType::Sand, GridPosition::new(4, 0, cs8()));
    state.spawn_block(BlockType::Sand, GridPosition::new(6, 3, cs8()));
    for _ in 0..60 {
        state.tick(viewport);
    }
    let stone = at(&state, 5, 2).expect("stone in place");
    assert!(matches!(stone, Material::Stone(_)));
    assert!(!stone.is_falling());
    assert_eq!(stone.get_pixel().color, Color::from_rgb(98, 95, 89));
}

#[test]
fn round_trip_gives_nearest_cell() {
    let cell = GridPosition::from_vec2(Point { x: 13, y: 4 }, cs8());
    let rect = cell.as_rect();
    assert_eq!((rect.x, rect.y, rect.w, rect.h), (16, 8, 8, 8));
    let cell = GridPosition::from_vec2(Point { x: 11, y: 3 }, cs8());
    assert_eq!((cell.x, cell.y), (8, 0));
    let cell = GridPosition::from_vec2(Point { x: -4, y: -13 }, cs8());
    assert_eq!((cell.x, cell.y), (-8, -16));
    let cell = GridPosition::from_vec2(Point { x: 7, y: 9 }, CellSize::new(5, 6));
    assert_eq!((cell.x, cell.y), (5, 12));
}

#[test]
fn try_from_vec2_refuses_unrepresentable_cells() {
    assert!(GridPosition::try_from_vec2(Point { x: i32::MAX, y: 0 }, cs8()).is_none());
    assert_eq!(
        GridPosition::try_from_vec2(Point { x: 20, y: 0 }, cs8()),
        Some(GridPosition::new(3, 0, cs8()))
    );
}

#[test]
fn new_position_scales_by_cell_size() {
    let p = GridPosition::new(3, -2, CellSize::new(4, 10));
    assert_eq!((p.x, p.y), (12, -20));
    assert_eq!(p.as_vec2(), Point { x: 12, y: -20 });
}

#[test]
fn offscreen_is_inclusive_at_the_margins() {
    let viewport = Viewport { width: 16, height: 16 };
    assert!(!GridPosition::new(0, 0, cs8()).is_offscreen(viewport));
    assert!(!GridPosition::new(1, 1, cs8()).is_offscreen(viewport));
    assert!(GridPosition::new(2, 1, cs8()).is_offscreen(viewport));
    assert!(GridPosition::new(0, 2, cs8()).is_offscreen(viewport));
    assert!(GridPosition::new(-1, 0, cs8()).is_offscreen(viewport));
    let odd = GridPosition { cell_size: cs8(), x: 9, y: 0 };
    assert!(odd.is_offscreen(viewport));
}

#[test]
fn occupancy_by_list_of_positions() {
    let list = vec![GridPosition::new(1, 1, cs8()), GridPosition::new(2, 1, cs8())];
    assert!(GridPosition::new(2, 1, cs8()).is_occupied(&list));
    assert!(!GridPosition::new(1, 2, cs8()).is_occupied(&list));
    let other_grid = GridPosition::new(1, 1, CellSize::new(8, 4));
    assert!(!other_grid.is_occupied(&list));
}

#[test]
fn position_arithmetic() {
    let a = GridPosition::new(1, 2, cs8());
    let b = GridPosition::new(3, -1, cs8());
    assert_eq!(a.add(b), GridPosition::new(4, 1, cs8()));
    let mut c = a;
    c.add_assign(b);
    assert_eq!(c, GridPosition::new(4, 1, cs8()));
    let m = GridPosition { cell_size: cs8(), x: 3, y: -2 }.mul(GridPosition { cell_size: cs8(), x: 4, y: 5 });
    assert_eq!((m.x, m.y), (12, -10));
}

#[test]
fn direction_offsets() {
    assert_eq!(Direction::TopLeft.get_offset(cs8()), GridPosition::new(-1, -1, cs8()));
    assert_eq!(Direction::Bottom.get_offset(cs8()), GridPosition::new(0, 1, cs8()));
    assert_eq!(Direction::BottomRight.get_offset(CellSize::new(4, 6)), GridPosition { cell_size: CellSize::new(4, 6), x: 4, y: 6 });
    assert_eq!(Direction::Left.get_offset(cs8()), GridPosition::new(-1, 0, cs8()));
    assert_eq!(Direction::neighbours().len(), 8);
    assert!(!Direction::neighbours().contains(&Direction::Middle));
}

#[test]
fn neighbour_queries() {
    let sand = Sand::new(GridPosition::new(5, 5, cs8()));
    let blocks = vec![
        Material::Stone(Stone::new(GridPosition::new(5, 6, cs8()))),
        Material::Sand(Sand::new(GridPosition::new(4, 6, cs8()))),
        Material::Stone(Stone::new(GridPosition::new(5, 4, cs8()))),
    ];
    assert_eq!(sand.get_open_directions(&blocks, cs8()), vec![Direction::BottomRight]);
    let found = sand.get_blocks_from_directions(
        &blocks,
        cs8(),
        vec![Direction::BottomLeft, Direction::BottomRight, Direction::Bottom],
    );
    assert_eq!(found.len(), 2);
    assert_eq!(found[0].0, Direction::BottomLeft);
    assert_eq!(found[1].0, Direction::Bottom);
    let around = sand.get_surrounding_blocks(&blocks, cs8());
    assert_eq!(around.len(), 8);
    assert_eq!(around[1].0, Direction::Top);
    assert!(matches!(around[1].1, Some(Material::Stone(_))));
    assert!(around[0].1.is_none());
    assert_eq!(sand.offset_bottom_left(cs8()), GridPosition::new(4, 6, cs8()));
    assert_eq!(sand.offset_bottom_right(cs8()), GridPosition::new(6, 6, cs8()));
    let viewport = Viewport { width: 160, height: 160 };
    assert_eq!(sand.should_apply_gravity(viewport, &blocks, cs8()), None);
    let free = Sand::new(GridPosition::new(8, 5, cs8()));
    assert_eq!(free.should_apply_gravity(viewport, &blocks, cs8()), Some(GridPosition::new(8, 6, cs8())));
}

#[test]
fn fresh_materials() {
    let p = GridPosition::new(1, 1, cs8());
    let sand = Sand::new(p);
    assert!(sand.is_falling());
    assert_eq!(sand.get_pixel().color, Color::black());
    let stone = Stone::new(p);
    assert!(!stone.is_falling());
    assert_eq!(stone.get_position(), p);
    let mut moved = stone;
    moved.set_position(GridPosition::new(2, 2, cs8()));
    assert_eq!(moved.get_position(), GridPosition::new(2, 2, cs8()));
    assert_eq!(moved.get_pixel().color, stone.get_pixel().color);
}

#[test]
fn region_spawn_and_erase() {
    let mut state = MainState::new(cs8());
    let center = GridPosition::new(4, 4, cs8());
    assert_eq!(state.generate_positions(center, 1).len(), 4);
    assert_eq!(state.generate_positions(center, 2).len(), 16);
    state.spawn_block(BlockType::Stone, GridPosition::new(3, 3, cs8()));
    state.spawn_region(BlockType::Sand, center, 1);
    assert_eq!(state.blocks.len(), 4);
    assert!(matches!(at(&state, 3, 3), Some(Material::Stone(_))));
    assert!(matches!(at(&state, 4, 4), Some(Material::Sand(_))));
    assert!(at(&state, 5, 5).is_none());
    state.spawn_region(BlockType::Eraser, center, 1);
    assert_eq!(state.blocks.len(), 4);
    state.spawn_block(BlockType::Sand, GridPosition::new(9, 9, cs8()));
    state.erase_region(center, 1);
    assert_eq!(state.blocks.len(), 1);
    assert!(at(&state, 9, 9).is_some());
}

#[test]
fn update_applies_the_tool_after_the_tick() {
    let mut state = MainState::new(cs8());
    let viewport = Viewport { width: 160, height: 160 };
    state.place_range = 1;
    state.update(viewport, Point { x: 32, y: 32 });
    assert!(state.blocks.is_empty());
    state.mouse_button_down_event();
    state.update(viewport, Point { x: 33, y: 30 });
    assert_eq!(state.blocks.len(), 4);
    state.mouse_button_up_event();
    state.update(viewport, Point { x: 32, y: 32 });
    assert_eq!(state.blocks.len(), 4);
    state.key_down_event('3');
    state.mouse_button_down_event();
    state.update(viewport, Point { x: 32, y: 48 });
    assert!(state.blocks.len() < 4);
}

#[test]
fn keys_select_the_tool() {
    let mut state = MainState::new(cs8());
    state.key_down_event('2');
    assert_eq!(state.selected_block, BlockType::Stone);
    state.key_down_event('3');
    assert_eq!(state.selected_block, BlockType::Eraser);
    state.key_down_event('1');
    assert_eq!(state.selected_block, BlockType::Sand);
    state.key_down_event('3');
    state.key_down_event('x');
    assert_eq!(state.selected_block, BlockType::Sand);
}

#[test]
fn wheel_changes_range_down_to_one() {
    let mut state = MainState::new(cs8());
    assert_eq!(state.place_range, 5);
    state.mouse_wheel_event(true);
    assert_eq!(state.place_range, 6);
    for _ in 0..10 {
        state.mouse_wheel_event(false);
    }
    assert_eq!(state.place_range, 1);
    state.place_range = i32::MAX;
    state.mouse_wheel_event(true);
    assert_eq!(state.place_range, i32::MAX);
}

#[test]
fn collisions_keep_the_later_material() {
    let mut state = MainState::new(cs8());
    let viewport = Viewport { width: 160, height: 160 };
    // Two resting sands on stones slide towards the same free cell (5, 5).
    state.spawn_block(BlockType::Stone, GridPosition::new(4, 5, cs8()));
    state.spawn_block(BlockType::Stone, GridPosition::new(6, 5, cs8()));
    state.spawn_block(BlockType::Stone, GridPosition::new(3, 5, cs8()));
    state.spawn_block(BlockType::Stone, GridPosition::new(7, 5, cs8()));
    state.spawn_block(BlockType::Sand, GridPosition::new(4, 4, cs8()));
    state.spawn_block(BlockType::Sand, GridPosition::new(6, 4, cs8()));
    let choices = all_true(&state);
    let lost = state.tick_with(viewport, &choices);
    assert_eq!(lost, vec![GridPosition::new(5, 5, cs8())]);
    assert_eq!(state.blocks.len(), 5);
    assert!(at(&state, 5, 5).is_some());
    assert!(at(&state, 4, 4).is_none());
    assert!(at(&state, 6, 4).is_none());
}

#[test]
fn clone_and_occupancy_of_the_grid() {
    let mut state = MainState::new(cs8());
    state.spawn_block(BlockType::Sand, GridPosition::new(1, 1, cs8()));
    assert_eq!(state.clone_blocks(), state.blocks);
    assert!(state.position_occupied(GridPosition::new(1, 1, cs8())));
    assert!(!state.position_occupied(GridPosition::new(1, 2, cs8())));
}

#[test]
fn collision_counts_group_by_position() {
    let a = GridPosition::new(1, 1, cs8());
    let b = GridPosition::new(2, 1, cs8());
    let counts = collision_counts(&vec![a, b, a]);
    assert_eq!(counts, vec![(a, 3), (b, 2)]);
    assert!(collision_counts(&vec![]).is_empty());
}

#[test]
fn resting_sand_slides_to_one_side_at_random() {
    let viewport = Viewport { width: 160, height: 160 };
    let blocks = vec![Material::Stone(Stone::new(GridPosition::new(5, 5, cs8())))];
    let mut sand = Sand::new(GridPosition::new(5, 4, cs8()));
    sand.apply_gravity(viewport, &blocks, cs8());
    assert!(!sand.is_falling());
    sand.apply_motion(viewport, &blocks, cs8());
    let p = sand.get_position();
    assert!(p == GridPosition::new(4, 5, cs8()) || p == GridPosition::new(6, 5, cs8()));
    let mut left = Sand::new(GridPosition::new(5, 4, cs8()));
    left.apply_gravity(viewport, &blocks, cs8());
    left.apply_motion_with(viewport, &blocks, cs8(), true);
    assert_eq!(left.get_position(), GridPosition::new(4, 5, cs8()));
}

#[test]
fn stone_ignores_gravity_and_motion() {
    let viewport = Viewport { width: 160, height: 160 };
    let blocks: Vec<Material> = vec![];
    let mut stone = Stone::new(GridPosition::new(3, 3, cs8()));
    let before = stone;
    stone.apply_gravity(viewport, &blocks, cs8());
    stone.apply_motion(viewport, &blocks, cs8());
    assert_eq!(stone, before);
}
