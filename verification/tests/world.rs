use initerse::GridPos;
use initerse::Fixed2;
use initerse::tiles::World;
use initerse::tiles::InteractInput;
use initerse::build_mode::BuildMode;
use initerse::tower::Tower;

fn empty_world() -> World {
    World::new(7, Vec::new())
}

fn machine_of(t: Tower) -> initerse::tower::Machine {
    t.new_machine().unwrap()
}

#[test]
fn set_then_get_returns_placed_tag() {
    let mut w = empty_world();
    let c = GridPos::new(3, -2);
    let prev = w.set_tower(c, machine_of(Tower::Electron));
    assert!(prev.is_none());
    assert_eq!(w.get_tower(&c).ty(), Tower::Electron);
}

#[test]
fn set_empty_removes_occupant() {
    let mut w = empty_world();
    let c = GridPos::new(0, 5);
    w.set_tower(c, machine_of(Tower::AntimatterCollector));
    let prev = w.set_tower(c, machine_of(Tower::Empty));
    assert!(prev.is_some());
    assert_eq!(prev.unwrap().ty(), Tower::AntimatterCollector);
    assert!(w.try_get_tower(&c).is_none());
}

#[test]
fn erasing_empty_cell_is_noop() {
    let mut w = empty_world();
    let c = GridPos::new(-8, 11);
    let prev = w.set_tower(c, machine_of(Tower::Empty));
    assert!(prev.is_none());
    assert!(w.try_get_tower(&c).is_none());
}

#[test]
fn set_returns_previous_occupant() {
    let mut w = empty_world();
    let c = GridPos::new(1, 1);
    w.set_tower(c, machine_of(Tower::Electron));
    let prev = w.set_tower(c, machine_of(Tower::Energy));
    assert_eq!(prev.unwrap().ty(), Tower::Electron);
    assert_eq!(w.get_tower(&c).ty(), Tower::Energy);
}

#[test]
fn absent_cell_reads_as_sentinel() {
    let w = empty_world();
    let c = GridPos::new(100, 100);
    assert_eq!(w.get_tower(&c).ty(), Tower::Empty);
    assert!(w.try_get_tower(&c).is_none());
}

#[test]
fn update_accumulates_rate_times_dt() {
    let mut w = empty_world();
    let c = GridPos::new(0, 0);
    w.set_tower(c, machine_of(Tower::Electron));
    // rate 1.0 (1000 milli), dt 2.0 s (2000 milli) -> buffer 2.0 (2000).
    w.update(GridPos::new(0, 0), 2000);
    assert_eq!(w.get_tower(&c).buffer, 2000);
}

#[test]
fn update_window_boundary() {
    // radius 50: the window spans [px - 25, px + 24] per axis.
    let mut w = empty_world();
    let at_boundary = GridPos::new(-25, 0);
    let outside = GridPos::new(-26, 0);
    w.set_tower(at_boundary, machine_of(Tower::Electron));
    w.set_tower(outside, machine_of(Tower::Electron));
    w.update(GridPos::new(0, 0), 1000);
    assert_eq!(w.get_tower(&at_boundary).buffer, 1000);
    assert_eq!(w.get_tower(&outside).buffer, 0);
}

#[test]
fn update_saturates_at_max() {
    let mut w = empty_world();
    let c = GridPos::new(0, 0);
    let mut m = machine_of(Tower::Electron);
    m.buffer = u64::MAX - 500;
    w.set_tower(c, m);
    w.update(GridPos::new(0, 0), 1000);
    assert_eq!(w.get_tower(&c).buffer, u64::MAX);
}

#[test]
fn place_update_save_reload_keeps_buffer() {
    // place Electron at (0,0) rate 1.0; dt 2.0 once -> 2.0; survives a
    // save/load round trip.
    let mut w = empty_world();
    let c = GridPos::new(0, 0);
    w.set_tower(c, machine_of(Tower::Electron));
    w.update(GridPos::new(0, 0), 2000);
    let text = w.save();
    let w2 = World::load(&text).unwrap();
    assert_eq!(w2.get_tower(&c).buffer, 2000);
    assert_eq!(w2.get_tower(&c).ty(), Tower::Electron);
}

#[test]
fn zoom_in_never_exceeds_max() {
    let mut w = empty_world();
    for _ in 0..200 {
        w.control_tilesize(1);
        assert!(w.tilesize() <= 256_000);
    }
    assert_eq!(w.tilesize(), 256_000);
}

#[test]
fn zoom_out_never_drops_below_min() {
    let mut w = empty_world();
    for _ in 0..200 {
        w.control_tilesize(-1);
        assert!(w.tilesize() >= 3_000);
    }
    assert_eq!(w.tilesize(), 3_000);
}

#[test]
fn zoom_step_is_eleven_tenths() {
    let mut w = empty_world();
    assert_eq!(w.tilesize(), 48_000);
    w.control_tilesize(1);
    assert_eq!(w.tilesize(), 52_800);
    w.control_tilesize(-1);
    assert_eq!(w.tilesize(), 48_000);
    w.control_tilesize(0);
    assert_eq!(w.tilesize(), 48_000);
}

fn click(mouse_x: i64, mouse_y: i64) -> InteractInput {
    InteractInput {
        escape_released: false,
        left_released: true,
        mouse: Fixed2::new(mouse_x, mouse_y),
        screen_w: 800_000,
        screen_h: 600_000,
    }
}

#[test]
fn focus_moves_then_clears() {
    // machines at (0,0) and (1,0); player at the origin; clicks land
    // left of the panel, so they are never swallowed by it.
    let mut w = empty_world();
    let a = GridPos::new(0, 0);
    let b = GridPos::new(1, 0);
    w.set_tower(a, machine_of(Tower::Electron));
    w.set_tower(b, machine_of(Tower::Electron));
    let bm = BuildMode::new();
    let player = Fixed2::new(0, 0);

    w.interact(player, &bm, click(10_000, 10_000));
    assert_eq!(w.focused_cell(), Some(a));

    w.interact(player, &bm, click(50_000, 10_000));
    assert_eq!(w.focused_cell(), Some(b));

    w.interact(player, &bm, click(50_000, 10_000));
    assert_eq!(w.focused_cell(), None);
}

#[test]
fn escape_clears_focus() {
    let mut w = empty_world();
    let a = GridPos::new(0, 0);
    w.set_tower(a, machine_of(Tower::Electron));
    let bm = BuildMode::new();
    let player = Fixed2::new(0, 0);
    w.interact(player, &bm, click(10_000, 10_000));
    assert_eq!(w.focused_cell(), Some(a));
    let esc = InteractInput {
        escape_released: true,
        left_released: false,
        mouse: Fixed2::new(0, 0),
        screen_w: 800_000,
        screen_h: 600_000,
    };
    w.interact(player, &bm, esc);
    assert_eq!(w.focused_cell(), None);
}

#[test]
fn click_on_empty_cell_keeps_focus() {
    let mut w = empty_world();
    let a = GridPos::new(0, 0);
    w.set_tower(a, machine_of(Tower::Electron));
    let bm = BuildMode::new();
    let player = Fixed2::new(0, 0);
    w.interact(player, &bm, click(10_000, 10_000));
    w.interact(player, &bm, click(95_000, 10_000)); // cell (1,0) is empty... (95_000 / 48_000 = cell 1)
    assert_eq!(w.focused_cell(), Some(a));
}

#[test]
fn click_while_building_does_not_focus() {
    let mut w = empty_world();
    let a = GridPos::new(0, 0);
    w.set_tower(a, machine_of(Tower::Electron));
    let mut bm = BuildMode::new();
    bm.current = Tower::Electron;
    let player = Fixed2::new(0, 0);
    w.interact(player, &bm, click(10_000, 10_000));
    assert_eq!(w.focused_cell(), None);
}

#[test]
fn remove_gui_returns_previous_focus() {
    let mut w = empty_world();
    let a = GridPos::new(0, 0);
    w.set_tower(a, machine_of(Tower::Electron));
    let bm = BuildMode::new();
    w.interact(Fixed2::new(0, 0), &bm, click(10_000, 10_000));
    assert_eq!(w.remove_gui(), Some(a));
    assert_eq!(w.remove_gui(), None);
}

#[test]
fn screen_to_world_floors_cells() {
    let w = empty_world();
    let player = Fixed2::new(0, 0);
    assert_eq!(w.screen_to_world(Fixed2::new(0, 0), player), GridPos::new(0, 0));
    assert_eq!(w.screen_to_world(Fixed2::new(47_999, 0), player), GridPos::new(0, 0));
    assert_eq!(w.screen_to_world(Fixed2::new(48_000, 0), player), GridPos::new(1, 0));
    assert_eq!(w.screen_to_world(Fixed2::new(-1, 0), player), GridPos::new(-1, 0));
}

#[test]
fn world_to_screen_follows_player_subcell() {
    let w = empty_world();
    // player half a cell in: tiles shift left by half a tile.
    let player = Fixed2::new(500, 0);
    let p = w.world_to_screen(GridPos::new(1, 0), player);
    assert_eq!(p, Fixed2::new(24_000, 0));
    let q = w.world_to_screen(GridPos::new(0, 0), Fixed2::new(0, 0));
    assert_eq!(q, Fixed2::new(0, 0));
}

#[test]
fn tiles_in_screen_scales_by_zoom() {
    let w = empty_world();
    let r = w.tiles_in_screen(800_000, 600_000);
    assert_eq!(r.x, 16_666);
    assert_eq!(r.y, 12_500);
}

#[test]
fn draw_plan_lists_occupied_cells_with_positions() {
    let mut w = empty_world();
    let near = GridPos::new(0, 0);
    let far = GridPos::new(1000, 1000);
    w.set_tower(near, machine_of(Tower::Electron));
    w.set_tower(far, machine_of(Tower::Energy));
    let plan = w.draw_plan(Fixed2::new(0, 0), 800_000, 600_000);
    assert!(plan.contains(&(near, Fixed2::new(0, 0))));
    assert!(plan.iter().any(|e| e.0 == near));
    for (c, _) in plan.iter() {
        assert!(w.try_get_tower(c).is_some());
    }
}

#[test]
fn world_new_defaults() {
    let w = empty_world();
    assert_eq!(w.tilesize(), 48_000);
    assert_eq!(w.seed(), 7);
    assert_eq!(w.focused_cell(), None);
    assert!(w.celestials().is_empty());
}
