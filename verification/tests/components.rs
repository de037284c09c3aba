use initerse::Fixed2;
use initerse::GridPos;
use initerse::build_mode::{BuildInput, BuildMode};
use initerse::config::Action;
use initerse::gui::{Color, Rect, TextBox, clicked_button, panel_rect};
use initerse::hotbar::Hotbar;
use initerse::textures::TextureCache;
use initerse::tiles::World;
use initerse::tower::{Tower, is_clicked};

fn idle_input() -> BuildInput {
    BuildInput {
        on_hotbar: false,
        left_down: false,
        right_down: false,
        right_released: false,
        escape_released: false,
    }
}

#[test]
fn build_mode_starts_inactive() {
    let bm = BuildMode::new();
    assert_eq!(bm.current, Tower::Empty);
}

#[test]
fn hotbar_slot_zero_selects_electron() {
    // selecting hotbar slot 0 puts the tool into Selecting(Electron);
    // Escape returns it to Inactive with nothing placed.
    let hb = Hotbar::new();
    let mut bm = BuildMode::new();
    let mut w = World::new(0, Vec::new());
    // click inside the strip, first slot: strip x in (100k, 700k),
    // slot width 60k.
    let on = hb.select(&mut bm, Fixed2::new(110_000, 560_000), 800_000, 600_000, true);
    assert!(on);
    assert_eq!(bm.current, Tower::Electron);

    let esc = BuildInput { escape_released: true, ..idle_input() };
    let preview = bm.step(&mut w, Fixed2::new(10_000, 10_000), Fixed2::new(0, 0), esc);
    assert_eq!(bm.current, Tower::Empty);
    assert!(preview.is_none());
    assert!(w.try_get_tower(&GridPos::new(0, 0)).is_none());
}

#[test]
fn hotbar_second_slot_selects_collector() {
    let hb = Hotbar::new();
    let mut bm = BuildMode::new();
    // second slot spans x in (160k, 220k).
    let on = hb.select(&mut bm, Fixed2::new(170_000, 560_000), 800_000, 600_000, true);
    assert!(on);
    assert_eq!(bm.current, Tower::AntimatterCollector);
}

#[test]
fn hotbar_reports_pointer_outside_strip() {
    let hb = Hotbar::new();
    let mut bm = BuildMode::new();
    let on = hb.select(&mut bm, Fixed2::new(400_000, 300_000), 800_000, 600_000, true);
    assert!(!on);
    assert_eq!(bm.current, Tower::Empty);
}

#[test]
fn hotbar_empty_slot_deselects() {
    let hb = Hotbar::new();
    let mut bm = BuildMode::new();
    bm.current = Tower::Electron;
    // last slot holds the sentinel: selecting it deactivates the tool.
    let on = hb.select(&mut bm, Fixed2::new(690_000, 560_000), 800_000, 600_000, true);
    assert!(on);
    assert_eq!(bm.current, Tower::Empty);
}

#[test]
fn build_step_commits_placement_while_held() {
    let mut bm = BuildMode::new();
    bm.current = Tower::Electron;
    let mut w = World::new(0, Vec::new());
    let inp = BuildInput { left_down: true, ..idle_input() };
    // pointer over cell (1, 0) with the player at the origin.
    let preview = bm.step(&mut w, Fixed2::new(50_000, 10_000), Fixed2::new(0, 0), inp);
    assert_eq!(preview, Some(Tower::Electron));
    assert_eq!(w.get_tower(&GridPos::new(1, 0)).ty(), Tower::Electron);
    assert_eq!(bm.current, Tower::Electron);
}

#[test]
fn build_step_right_drag_erases() {
    let mut bm = BuildMode::new();
    let mut w = World::new(0, Vec::new());
    let c = GridPos::new(0, 0);
    w.set_tower(c, Tower::Electron.new_machine().unwrap());
    let inp = BuildInput { right_down: true, ..idle_input() };
    let preview = bm.step(&mut w, Fixed2::new(10_000, 10_000), Fixed2::new(0, 0), inp);
    assert_eq!(preview, Some(Tower::Empty));
    assert!(w.try_get_tower(&c).is_none());
}

#[test]
fn build_step_idle_and_suppressed_do_nothing() {
    let mut bm = BuildMode::new();
    let mut w = World::new(0, Vec::new());
    assert!(bm.step(&mut w, Fixed2::new(0, 0), Fixed2::new(0, 0), idle_input()).is_none());

    bm.current = Tower::Electron;
    let inp = BuildInput { on_hotbar: true, left_down: true, ..idle_input() };
    assert!(bm.step(&mut w, Fixed2::new(10_000, 10_000), Fixed2::new(0, 0), inp).is_none());
    assert!(w.try_get_tower(&GridPos::new(0, 0)).is_none());
    assert_eq!(bm.current, Tower::Electron);
}

#[test]
fn build_step_right_release_cancels() {
    let mut bm = BuildMode::new();
    bm.current = Tower::AntimatterCollector;
    let mut w = World::new(0, Vec::new());
    let inp = BuildInput { right_released: true, ..idle_input() };
    assert!(bm.step(&mut w, Fixed2::new(0, 0), Fixed2::new(0, 0), inp).is_none());
    assert_eq!(bm.current, Tower::Empty);
}

#[test]
fn tower_metadata() {
    assert_eq!(Tower::Empty.texture_path(), "empty.png");
    assert_eq!(Tower::Electron.texture_path(), "electron.png");
    assert_eq!(Tower::StringCreator.texture_path(), "string creator.png");
    assert_eq!(Tower::AntimatterCollector.texture_path(), "antimatter_collector.png");
    assert_eq!(Tower::Energy.texture_path(), "energy.png");
    assert!(Tower::Electron.buildable());
    assert!(Tower::AntimatterCollector.buildable());
    assert!(!Tower::Empty.buildable());
    assert!(!Tower::StringCreator.buildable());
    assert!(!Tower::Energy.buildable());
}

#[test]
fn default_tag_is_sentinel() {
    assert_eq!(Tower::default(), Tower::Empty);
}

#[test]
fn factory_defaults() {
    let e = Tower::Electron.new_machine().unwrap();
    assert_eq!(e.buffer, 0);
    assert_eq!(e.rate, 1000);
    let n = Tower::Energy.new_machine().unwrap();
    assert_eq!(n.rate, 1_000_000_000_000);
}

#[test]
fn machine_update_formula() {
    let mut m = Tower::Electron.new_machine().unwrap();
    m.rate = 1500;
    m.update(500);
    assert_eq!(m.buffer, 750);
    m.update(0);
    assert_eq!(m.buffer, 750);
}

#[test]
fn cold_cache_has_no_textures() {
    let cache = TextureCache::new();
    assert!(Tower::Electron.try_loaded_texture(&cache).is_none());
    assert!(Tower::Empty.try_loaded_texture(&cache).is_none());
}

#[test]
fn default_keycodes_are_zqsd() {
    assert_eq!(Action::Forward.default_keycode(), 0x5a);
    assert_eq!(Action::Backward.default_keycode(), 0x53);
    assert_eq!(Action::Left.default_keycode(), 0x51);
    assert_eq!(Action::Right.default_keycode(), 0x44);
    assert_eq!(Action::all().len(), 4);
}

#[test]
fn panel_rect_is_inset() {
    let r = panel_rect(800_000, 600_000);
    assert_eq!(r, Rect::new(100_000, 50_000, 600_000, 500_000));
}

#[test]
fn click_hit_testing() {
    let r = Rect::new(10_000, 10_000, 5_000, 5_000);
    assert!(clicked_button(r, Fixed2::new(12_000, 12_000), true));
    assert!(!clicked_button(r, Fixed2::new(12_000, 12_000), false));
    assert!(!clicked_button(r, Fixed2::new(20_000, 12_000), true));
    assert!(is_clicked(r, Fixed2::new(10_000, 10_000), true));
    // containment is half-open: the far edge is outside.
    assert!(!is_clicked(r, Fixed2::new(15_000, 10_000), true));
    // a zero-sized rectangle contains nothing.
    assert!(!is_clicked(Rect::new(0, 0, 0, 0), Fixed2::new(0, 0), true));
}

#[test]
fn textbox_focus_and_typing() {
    let rect = Rect::new(0, 0, 50_000, 20_000);
    let mut tb = TextBox::new(String::new(), rect, Color { r: 80, g: 80, b: 80, a: 1000 });
    assert!(!tb.focused);
    // click inside: focused, dimmed, text grows the box.
    tb.update(true, Fixed2::new(5_000, 5_000), "ab");
    assert!(tb.focused);
    assert_eq!(tb.color.a, 500);
    assert_eq!(tb.text, "ab");
    assert_eq!(tb.rect.w, 24_000);
    // no click: typing continues while focused.
    tb.update(false, Fixed2::new(0, 0), "c");
    assert_eq!(tb.text, "abc");
    assert_eq!(tb.rect.w, 36_000);
    // click outside: unfocused, typing ignored.
    tb.update(true, Fixed2::new(900_000, 5_000), "d");
    assert!(!tb.focused);
    assert_eq!(tb.color.a, 1000);
    assert_eq!(tb.text, "abc");
}

#[test]
fn textbox_empty_constructor() {
    let tb = TextBox::empty(Rect::new(1, 2, 3, 4));
    assert_eq!(tb.text, "");
    assert!(!tb.focused);
    assert_eq!(tb.rect, Rect::new(1, 2, 3, 4));
}

#[test]
fn grid_key_round_trip() {
    for (x, y) in [(0, 0), (-1, 1), (i32::MIN, i32::MAX), (12345, -54321)] {
        let p = GridPos::new(x, y);
        assert_eq!(initerse::grid_key_pos(initerse::grid_key(p)), p);
    }
}

#[test]
fn seeded_generator_is_deterministic() {
    let (out, next) = initerse::rand_with_seed(42);
    assert_eq!(out, 0);
    assert_eq!(next, 10481999410520546993);
    assert_eq!(initerse::rand_with_seed(42), (out, next));
    let (out2, next2) = initerse::rand_with_seed(0x123456789ABCDEF0);
    assert_eq!(out2, 1369610156);
    assert_eq!(next2, 11664487699085246847);
}

#[test]
fn floor_division_rounds_down() {
    assert_eq!(initerse::floor_div(-7, 2), -4);
    assert_eq!(initerse::floor_div(7, 2), 3);
    assert_eq!(initerse::floor_div(-8, 2), -4);
    assert_eq!(initerse::floor_mod(-7, 2), 1);
    assert_eq!(initerse::floor_mod(7, 2), 1);
}
