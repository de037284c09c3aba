//! The world: a sparse grid of machines, the zoom level, the windowed
//! simulation scheduler, and the single GUI-focus slot.

use vstd::prelude::*;

use crate::build_mode::BuildMode;
use crate::celestial::Celestial;
use crate::grid_map::TowerMap;
use crate::grid_map::tower_map_model;
use crate::gui::{Rect, panel_rect, panel_rect_spec, rect_contains};
use crate::tower::Machine;
use crate::tower::Tower;
use crate::tower::empty_machine;
use crate::tower::stepped;
use crate::{Fixed2, GridPos, key_of, pos_of_key, lemma_key_of_inverse, grid_key, grid_key_pos,
    floor_div, floor_mod};

verus! {

/// Default zoom level: 48 pixels per cell, in thousandths.
pub const BASE_TILE_SIZE_MILLI: u32 = 48_000;

/// Smallest and largest zoom level, in thousandths of a pixel.
pub const MIN_TILE_SIZE_MILLI: u32 = 3_000;

pub const MAX_TILE_SIZE_MILLI: u32 = 256_000;

/// Side, in cells, of the square update window around the player.
pub const BASE_UPDATE_RADIUS: u32 = 50;

pub struct World {
    map: TowerMap,
    seed: u64,
    enabled_gui: Option<GridPos>,
    /// Current zoom: pixels per cell, in thousandths.
    tilesize: u32,
    /// Side of the update window, in cells.
    update_radius: u32,
    celestials: Vec<(GridPos, Celestial)>,
}

/// The occupant of cell `c` in grid `g`, with the sentinel standing
/// for absence.
pub open spec fn tower_at(g: Map<u64, Machine>, c: GridPos) -> Machine {
    if g.dom().contains(key_of(c)) {
        g[key_of(c)]
    } else {
        empty_machine()
    }
}

/// A grid never stores the sentinel tag and is finitely occupied.
pub open spec fn grid_inv(g: Map<u64, Machine>) -> bool {
    &&& g.dom().finite()
    &&& forall|k: u64| g.dom().contains(k) ==> (#[trigger] g[k]).tower != Tower::Empty
}

impl World {
    /// The grid contents: packed coordinate to machine.
    pub closed spec fn grid(self) -> Map<u64, Machine> {
        tower_map_model(self.map)
    }

    /// The coordinate whose inspection panel is open, if any.
    pub closed spec fn focus(self) -> Option<GridPos> {
        self.enabled_gui
    }

    /// Current zoom level in milli-pixels per cell.
    pub closed spec fn ts_milli(self) -> u32 {
        self.tilesize
    }

    /// Side of the update window, in cells.
    pub closed spec fn radius(self) -> u32 {
        self.update_radius
    }

    pub closed spec fn seed_spec(self) -> u64 {
        self.seed
    }

    pub open spec fn wf(self) -> bool {
        &&& grid_inv(self.grid())
        &&& MIN_TILE_SIZE_MILLI <= self.ts_milli() <= MAX_TILE_SIZE_MILLI
        &&& 1 <= self.radius() <= 10_000
    }

    /// A fresh world: empty grid, no focus, base zoom and window.
    pub fn new(seed: u64, celestials: Vec<Celestial>) -> (w: World)
        ensures
            w.wf(),
            w.grid() == crate::grid_map::empty_grid(),
            w.focus() is None,
            w.ts_milli() == BASE_TILE_SIZE_MILLI,
            w.radius() == BASE_UPDATE_RADIUS,
            w.seed_spec() == seed,
    {
        let mut placed: Vec<(GridPos, Celestial)> = Vec::new();
        let mut rest = celestials;
        while rest.len() > 0
            decreases rest.len(),
        {
            let c = rest.remove(0);
            placed.push((GridPos { x: 20, y: 0 }, c));
        }
        World {
            map: TowerMap::new(),
            seed,
            enabled_gui: None,
            tilesize: BASE_TILE_SIZE_MILLI,
            update_radius: BASE_UPDATE_RADIUS,
            celestials: placed,
        }
    }

    pub fn tilesize(&self) -> (r: u32)
        ensures
            r == self.ts_milli(),
    {
        self.tilesize
    }

    pub fn seed(&self) -> (r: u64)
        ensures
            r == self.seed_spec(),
    {
        self.seed
    }

    /// The decorative bodies and where they sit.
    pub fn celestials(&self) -> &Vec<(GridPos, Celestial)> {
        &self.celestials
    }

    /// The coordinate currently focused, if any.
    pub fn focused_cell(&self) -> (r: Option<GridPos>)
        ensures
            r == self.focus(),
    {
        self.enabled_gui
    }

    /// Place `machine` at `coords`, returning the previous occupant.
    /// Placing the sentinel tag removes instead of storing it; there
    /// is no error path.
    pub fn set_tower(&mut self, coords: GridPos, machine: Machine) -> (prev: Option<Machine>)
        requires
            old(self).wf(),
        ensures
            final(self).wf(),
            machine.tower == Tower::Empty ==> final(self).grid() == old(self).grid().remove(
                key_of(coords),
            ),
            machine.tower != Tower::Empty ==> final(self).grid() == old(self).grid().insert(
                key_of(coords),
                machine,
            ),
            prev == (if old(self).grid().dom().contains(key_of(coords)) {
                Some(old(self).grid()[key_of(coords)])
            } else {
                Option::<Machine>::None
            }),
            final(self).focus() == old(self).focus(),
            final(self).ts_milli() == old(self).ts_milli(),
            final(self).radius() == old(self).radius(),
            final(self).seed_spec() == old(self).seed_spec(),
    {
        let k = grid_key(coords);
        if matches!(machine.tower, Tower::Empty) {
            self.map.remove(k)
        } else {
            self.map.insert(k, machine)
        }
    }

    /// The occupant of `coords`, or the sentinel when the cell is
    /// empty; never fails.
    pub fn get_tower(&self, coords: &GridPos) -> (r: Machine)
        ensures
            r == tower_at(self.grid(), *coords),
    {
        let k = grid_key(*coords);
        match self.map.get(k) {
            Some(m) => *m,
            None => Machine { tower: Tower::Empty, buffer: 0, rate: 0 },
        }
    }

    /// How many tiles fit across and down the screen, in thousandths
    /// of a tile.
    pub fn tiles_in_screen(&self, screen_w: i64, screen_h: i64) -> (r: Fixed2)
        requires
            self.wf(),
            0 <= screen_w <= 1_000_000_000,
            0 <= screen_h <= 1_000_000_000,
        ensures
            r.x == screen_w * 1000 / (self.ts_milli() as int),
            r.y == screen_h * 1000 / (self.ts_milli() as int),
    {
        let ts = self.tilesize as i64;
        Fixed2 { x: (screen_w * 1000) / ts, y: (screen_h * 1000) / ts }
    }

    /// The texture of the occupant of `coords` (the sentinel's when
    /// the cell is empty), from a fully warmed cache.
    pub fn get_tower_texture(
        &self,
        coords: &GridPos,
        cache: &crate::textures::TextureCache,
    ) -> (r: macroquad::texture::Texture2D)
        requires
            cache.wf(),
            crate::textures::all_warm(*cache),
    {
        let m = self.get_tower(coords);
        m.texture(cache)
    }

    /// The occupant of `coords`, with absence representable.
    pub fn try_get_tower(&self, coords: &GridPos) -> (r: Option<Machine>)
        ensures
            r == (if self.grid().dom().contains(key_of(*coords)) {
                Some(self.grid()[key_of(*coords)])
            } else {
                Option::<Machine>::None
            }),
    {
        let k = grid_key(*coords);
        match self.map.get(k) {
            Some(m) => Some(*m),
            None => None,
        }
    }

    /// Clear and return the focused coordinate; a panel's own close
    /// control goes through this.
    pub fn remove_gui(&mut self) -> (r: Option<GridPos>)
        requires
            old(self).wf(),
        ensures
            final(self).wf(),
            r == old(self).focus(),
            final(self).focus() is None,
            final(self).grid() == old(self).grid(),
            final(self).ts_milli() == old(self).ts_milli(),
            final(self).radius() == old(self).radius(),
            final(self).seed_spec() == old(self).seed_spec(),
    {
        self.enabled_gui.take()
    }
}

/// Whether cell `c` lies in the square update window of side `radius`
/// whose corner is the player's cell shifted by half the side.
pub open spec fn in_update_window(player: GridPos, radius: u32, c: GridPos) -> bool {
    &&& player.x - radius / 2 <= c.x < player.x - radius / 2 + radius
    &&& player.y - radius / 2 <= c.y < player.y - radius / 2 + radius
}

impl World {
    /// One simulation tick: every occupied cell inside the update
    /// window around the player advances by `dt` (thousandths of a
    /// second); every cell outside it is left untouched. Work per
    /// frame is bounded by the window size, not by how many machines
    /// exist.
    pub fn update(&mut self, player_cell: GridPos, dt: u64)
        requires
            old(self).wf(),
            -0x4000_0000 <= player_cell.x <= 0x4000_0000,
            -0x4000_0000 <= player_cell.y <= 0x4000_0000,
        ensures
            final(self).wf(),
            final(self).grid().dom() == old(self).grid().dom(),
            forall|k: u64| #[trigger]
                old(self).grid().dom().contains(k) ==> final(self).grid()[k] == (if in_update_window(
                    player_cell,
                    old(self).radius(),
                    pos_of_key(k),
                ) {
                    stepped(old(self).grid()[k], dt)
                } else {
                    old(self).grid()[k]
                }),
            final(self).focus() == old(self).focus(),
            final(self).ts_milli() == old(self).ts_milli(),
            final(self).radius() == old(self).radius(),
            final(self).seed_spec() == old(self).seed_spec(),
    {
        broadcast use lemma_key_of_inverse, crate::lemma_pos_of_key_inverse;

        let radius = self.update_radius;
        let x0: i32 = player_cell.x - (radius / 2) as i32;
        let y0: i32 = player_cell.y - (radius / 2) as i32;
        let mut i: u32 = 0;
        while i < radius
            invariant
                self.update_radius == radius,
                old(self).wf(),
                -0x4000_0000 <= player_cell.x <= 0x4000_0000,
                -0x4000_0000 <= player_cell.y <= 0x4000_0000,
                1 <= radius <= 10_000,
                x0 == player_cell.x - radius / 2,
                y0 == player_cell.y - radius / 2,
                i <= radius,
                grid_inv(self.grid()),
                self.grid().dom() == old(self).grid().dom(),
                forall|k: u64| #[trigger]
                    old(self).grid().dom().contains(k) ==> self.grid()[k] == (if in_update_window(
                        player_cell,
                        radius,
                        pos_of_key(k),
                    ) && pos_of_key(k).x - x0 < i {
                        stepped(old(self).grid()[k], dt)
                    } else {
                        old(self).grid()[k]
                    }),
                self.focus() == old(self).focus(),
                self.ts_milli() == old(self).ts_milli(),
                self.radius() == old(self).radius(),
                self.seed_spec() == old(self).seed_spec(),
            decreases radius - i,
        {
            let mut j: u32 = 0;
            while j < radius
                invariant
                    self.update_radius == radius,
                    old(self).wf(),
                    -0x4000_0000 <= player_cell.x <= 0x4000_0000,
                    -0x4000_0000 <= player_cell.y <= 0x4000_0000,
                    1 <= radius <= 10_000,
                    x0 == player_cell.x - radius / 2,
                    y0 == player_cell.y - radius / 2,
                    i < radius,
                    j <= radius,
                    grid_inv(self.grid()),
                    self.grid().dom() == old(self).grid().dom(),
                    forall|k: u64| #[trigger]
                        old(self).grid().dom().contains(k) ==> self.grid()[k] == (
                        if in_update_window(player_cell, radius, pos_of_key(k)) && (pos_of_key(
                            k,
                        ).x - x0 < i || (pos_of_key(k).x - x0 == i && pos_of_key(k).y - y0 < j)) {
                            stepped(old(self).grid()[k], dt)
                        } else {
                            old(self).grid()[k]
                        }),
                    self.focus() == old(self).focus(),
                    self.ts_milli() == old(self).ts_milli(),
                    self.radius() == old(self).radius(),
                    self.seed_spec() == old(self).seed_spec(),
                decreases radius - j,
            {
                let c = GridPos { x: x0 + (i as i32), y: y0 + (j as i32) };
                let k = grid_key(c);
                let found: Option<Machine> = match self.map.get(k) {
                    Some(m) => Some(*m),
                    None => None,
                };
                if let Some(m) = found {
                    let mut mm = m;
                    mm.update(dt);
                    self.map.insert(k, mm);
                    proof {
                        assert(self.grid().dom() =~= old(self).grid().dom());
                    }
                }
                j = j + 1;
            }
            i = i + 1;
        }
    }
}

/// The cell under screen point `scr` (milli-pixels), per axis: the
/// camera follows the player with sub-cell precision, so the cell is
/// `floor(scr / ts + player / 1000)` with `player` in milli-cells.
pub open spec fn s2w_axis(scr: int, player: int, ts: int) -> int {
    (scr * 1000 + player * ts) / (1000 * ts)
}

/// The cell under screen point `mouse` for a player at `player`.
pub open spec fn s2w_cell(mouse: Fixed2, player: Fixed2, ts: int) -> GridPos {
    GridPos {
        x: s2w_axis(mouse.x as int, player.x as int, ts) as i32,
        y: s2w_axis(mouse.y as int, player.y as int, ts) as i32,
    }
}

/// Screen position of a cell, per axis, given the player's sub-cell
/// offset already scaled to milli-pixels.
pub open spec fn w2so_axis(cell: int, offset: int, ts: int) -> int {
    cell * ts - offset
}

/// Screen position of a cell, per axis, for a player at `player`
/// milli-cells: the cell scaled by the tile size, shifted back by the
/// player's whole-cell and sub-cell parts.
pub open spec fn w2s_axis(cell: int, player: int, ts: int) -> int {
    cell * ts - ((player % 1000) * ts) / 1000 - (player / 1000) * ts
}

impl World {
    /// The grid cell under screen point `scr` when the player stands
    /// at `player_cell` (milli-cells).
    pub fn screen_to_world(&self, scr: Fixed2, player_cell: Fixed2) -> (c: GridPos)
        requires
            self.wf(),
            -1_000_000_000_000 <= scr.x <= 1_000_000_000_000,
            -1_000_000_000_000 <= scr.y <= 1_000_000_000_000,
            -1_000_000_000_000 <= player_cell.x <= 1_000_000_000_000,
            -1_000_000_000_000 <= player_cell.y <= 1_000_000_000_000,
        ensures
            c == s2w_cell(scr, player_cell, self.ts_milli() as int),
    {
        let x = s2w_one(scr.x, player_cell.x, self.tilesize);
        let y = s2w_one(scr.y, player_cell.y, self.tilesize);
        GridPos { x, y }
    }

    /// Screen position (milli-pixels) of `cell` given the player's
    /// sub-cell offset in milli-pixels.
    pub fn world_to_screen_offset(&self, cell: GridPos, player_offset: Fixed2) -> (r: Fixed2)
        requires
            self.wf(),
            -1_000_000_000_000_000 <= player_offset.x <= 1_000_000_000_000_000,
            -1_000_000_000_000_000 <= player_offset.y <= 1_000_000_000_000_000,
        ensures
            r.x == w2so_axis(cell.x as int, player_offset.x as int, self.ts_milli() as int),
            r.y == w2so_axis(cell.y as int, player_offset.y as int, self.ts_milli() as int),
    {
        let ts = self.tilesize as i64;
        proof {
            lemma_cell_ts_bound(cell.x as int, ts as int);
            lemma_cell_ts_bound(cell.y as int, ts as int);
        }
        Fixed2 { x: (cell.x as i64) * ts - player_offset.x, y: (cell.y as i64) * ts - player_offset.y }
    }

    /// Screen position (milli-pixels) of `cell` for a player at
    /// `player_cell` milli-cells.
    pub fn world_to_screen(&self, cell: GridPos, player_cell: Fixed2) -> (r: Fixed2)
        requires
            self.wf(),
            -1_000_000_000_000 <= player_cell.x <= 1_000_000_000_000,
            -1_000_000_000_000 <= player_cell.y <= 1_000_000_000_000,
        ensures
            r.x == w2s_axis(cell.x as int, player_cell.x as int, self.ts_milli() as int),
            r.y == w2s_axis(cell.y as int, player_cell.y as int, self.ts_milli() as int),
    {
        let ts = self.tilesize;
        let off = Fixed2 { x: sub_cell_offset(player_cell.x, ts), y: sub_cell_offset(player_cell.y, ts) };
        let base = self.world_to_screen_offset(cell, off);
        let qx = floor_div(player_cell.x, 1000);
        let qy = floor_div(player_cell.y, 1000);
        proof {
            lemma_cell_ts_bound(cell.x as int, ts as int);
            lemma_cell_ts_bound(cell.y as int, ts as int);
            lemma_whole_cell_shift_bound(player_cell.x as int, qx as int, ts as int);
            lemma_whole_cell_shift_bound(player_cell.y as int, qy as int, ts as int);
        }
        Fixed2 { x: base.x - qx * (ts as i64), y: base.y - qy * (ts as i64) }
    }
}

/// One axis of `screen_to_world`.
fn s2w_one(scr: i64, player: i64, ts: u32) -> (r: i32)
    requires
        3_000 <= ts <= 256_000,
        -1_000_000_000_000 <= scr <= 1_000_000_000_000,
        -1_000_000_000_000 <= player <= 1_000_000_000_000,
    ensures
        r == s2w_axis(scr as int, player as int, ts as int),
{
    proof {
        assert(-256_000_000_000_000_000 <= player * ts <= 256_000_000_000_000_000)
            by (nonlinear_arith)
            requires
                -1_000_000_000_000 <= player <= 1_000_000_000_000,
                0 < ts <= 256_000,
        ;
    }
    let a: i64 = scr * 1000 + player * (ts as i64);
    let b: i64 = 1000 * (ts as i64);
    let q = floor_div(a, b);
    proof {
        assert(-2_000_000_000 * b <= a <= 2_000_000_000 * b) by (nonlinear_arith)
            requires
                3_000 <= ts <= 256_000,
                -1_000_000_000_000 <= scr <= 1_000_000_000_000,
                -1_000_000_000_000 <= player <= 1_000_000_000_000,
                a == scr * 1000 + player * ts,
                b == 1000 * ts,
        ;
        assert(-2_000_000_000 <= a as int / b as int <= 2_000_000_000) by (nonlinear_arith)
            requires
                b > 0,
                -2_000_000_000 * b <= a <= 2_000_000_000 * b,
        ;
    }
    q as i32
}

/// The player's sub-cell offset scaled to milli-pixels:
/// `(player mod 1000) * ts / 1000`.
fn sub_cell_offset(player: i64, ts: u32) -> (r: i64)
    requires
        3_000 <= ts <= 256_000,
        -1_000_000_000_000 <= player <= 1_000_000_000_000,
    ensures
        r == ((player as int % 1000) * ts) / 1000,
        0 <= r <= ts,
{
    let fm = floor_mod(player, 1000);
    proof {
        assert(fm * ts <= 1000 * 256_000) by (nonlinear_arith)
            requires
                0 <= fm < 1000,
                0 < ts <= 256_000,
        ;
    }
    let prod: u64 = (fm as u64) * (ts as u64);
    let r = (prod / 1000) as i64;
    proof {
        assert(0 <= ((player as int % 1000) * ts) / 1000 <= ts) by (nonlinear_arith)
            requires
                0 <= player as int % 1000 < 1000,
                3_000 <= ts <= 256_000,
        ;
    }
    r
}

/// The product of a cell coordinate and a tile size stays well inside
/// the 64-bit range.
proof fn lemma_cell_ts_bound(cell: int, ts: int)
    requires
        -0x8000_0000 <= cell < 0x8000_0000,
        0 < ts <= 256_000,
    ensures
        -0x8000_0000 * 256_000 <= cell * ts <= 0x8000_0000 * 256_000,
{
    assert(-0x8000_0000 * 256_000 <= cell * ts <= 0x8000_0000 * 256_000) by (nonlinear_arith)
        requires
            -0x8000_0000 <= cell < 0x8000_0000,
            0 < ts <= 256_000,
    ;
}

/// The whole-cell part of the camera shift stays well inside the
/// 64-bit range.
proof fn lemma_whole_cell_shift_bound(player: int, q: int, ts: int)
    requires
        -1_000_000_000_000 <= player <= 1_000_000_000_000,
        q == player / 1000,
        0 < ts <= 256_000,
    ensures
        -1_000_000_000 <= q <= 1_000_000_000,
        -256_000_000_000_000 <= q * ts <= 256_000_000_000_000,
{
    assert(-1_000_000_000 <= player / 1000 <= 1_000_000_000) by (nonlinear_arith)
        requires
            -1_000_000_000_000 <= player <= 1_000_000_000_000,
    ;
    assert(-256_000_000_000_000 <= q * ts <= 256_000_000_000_000) by (nonlinear_arith)
        requires
            -1_000_000_000 <= q <= 1_000_000_000,
            0 < ts <= 256_000,
    ;
}

/// The inputs one frame hands to `World::interact`: edge state of the
/// keys and buttons it reacts to, the pointer, and the screen size,
/// all screen quantities in milli-pixels.
#[derive(Clone, Copy, Debug, PartialEq, Eq, Structural)]
pub struct InteractInput {
    pub escape_released: bool,
    pub left_released: bool,
    pub mouse: Fixed2,
    pub screen_w: i64,
    pub screen_h: i64,
}

/// A rectangle that contains nothing.
pub open spec fn zero_rect() -> Rect {
    Rect { x: 0, y: 0, w: 0, h: 0 }
}

/// What the GUI focus becomes after one interaction frame: Escape
/// clears it; otherwise a left release outside the open panel, with
/// the build tool inactive, on an occupied cell toggles focus for that
/// cell (off when re-clicking the focused cell, moved otherwise);
/// anything else leaves it alone.
pub open spec fn interact_focus_next(
    g: Map<u64, Machine>,
    focus: Option<GridPos>,
    current: Tower,
    cell: GridPos,
    inp: InteractInput,
) -> Option<GridPos> {
    if inp.escape_released {
        None
    } else {
        let panel = match focus {
            Some(f) => if g.dom().contains(key_of(f)) {
                panel_rect_spec(inp.screen_w, inp.screen_h)
            } else {
                zero_rect()
            },
            None => zero_rect(),
        };
        if inp.left_released && current == Tower::Empty && !rect_contains(panel, inp.mouse)
            && g.dom().contains(key_of(cell)) {
            if focus == Some(cell) {
                None
            } else {
                Some(cell)
            }
        } else {
            focus
        }
    }
}

impl World {
    /// One interaction frame: resolves panel clicks and focus changes.
    /// Returns the rectangle of the panel that was open this frame, if
    /// one was (its machine is re-looked-up by coordinate; a focus
    /// whose cell was emptied degrades to no panel).
    pub fn interact(&mut self, player_cell: Fixed2, build_mode: &BuildMode, inp: InteractInput) -> (
        panel: Option<Rect>)
        requires
            old(self).wf(),
            -1_000_000_000_000 <= player_cell.x <= 1_000_000_000_000,
            -1_000_000_000_000 <= player_cell.y <= 1_000_000_000_000,
            -1_000_000_000_000 <= inp.mouse.x <= 1_000_000_000_000,
            -1_000_000_000_000 <= inp.mouse.y <= 1_000_000_000_000,
            0 <= inp.screen_w <= 1_000_000_000,
            0 <= inp.screen_h <= 1_000_000_000,
        ensures
            final(self).wf(),
            final(self).grid() == old(self).grid(),
            final(self).ts_milli() == old(self).ts_milli(),
            final(self).radius() == old(self).radius(),
            final(self).seed_spec() == old(self).seed_spec(),
            final(self).focus() == interact_focus_next(
                old(self).grid(),
                old(self).focus(),
                build_mode.current,
                s2w_cell(inp.mouse, player_cell, old(self).ts_milli() as int),
                inp,
            ),
            panel == (match old(self).focus() {
                Some(f) => if !inp.escape_released && old(self).grid().dom().contains(key_of(f)) {
                    Some(panel_rect_spec(inp.screen_w, inp.screen_h))
                } else {
                    Option::<Rect>::None
                },
                None => Option::<Rect>::None,
            }),
    {
        if inp.escape_released {
            self.enabled_gui = None;
            return None;
        }
        let shown: Option<Rect> = match self.enabled_gui {
            Some(f) => {
                if self.try_get_tower(&f).is_some() {
                    Some(panel_rect(inp.screen_w, inp.screen_h))
                } else {
                    None
                }
            },
            None => None,
        };
        let rect = match shown {
            Some(r) => r,
            None => Rect { x: 0, y: 0, w: 0, h: 0 },
        };
        if inp.left_released && build_mode.current == Tower::Empty && !rect.contains(inp.mouse) {
            let cell = self.screen_to_world(inp.mouse, player_cell);
            if self.try_get_tower(&cell).is_some() {
                let refocus = match self.enabled_gui {
                    Some(f) => f != cell,
                    None => true,
                };
                if refocus {
                    self.enabled_gui = Some(cell);
                } else {
                    self.enabled_gui = None;
                }
            }
        }
        shown
    }
}

/// The running state of serialization: the text written so far parses
/// back to exactly the part of the grid already walked. Kept opaque so
/// the writing loop reasons about it only through the lemmas below.
#[verifier::opaque]
spec fn save_parse_inv(out: Seq<u8>, g: Map<u64, Machine>, done: Set<u64>) -> bool {
    crate::codec::spec_parse_world(out) == Some(g.restrict(done))
}

/// Nothing written, nothing walked.
proof fn lemma_save_init(g: Map<u64, Machine>)
    ensures
        save_parse_inv(Seq::empty(), g, Set::empty()),
{
    reveal(save_parse_inv);
    assert(crate::codec::spec_parse_world_at(Seq::<u8>::empty(), 0, Map::<u64, Machine>::empty())
        == Some(Map::<u64, Machine>::empty()));
    assert(g.restrict(Set::empty()) =~= Map::<u64, Machine>::empty());
}

/// One step of serialization: appending the record of one more
/// occupied cell extends what the text parses to by that cell.
proof fn lemma_save_step(
    g: Map<u64, Machine>,
    done: Set<u64>,
    prev: Seq<u8>,
    out_new: Seq<u8>,
    k: u64,
    m: Machine,
)
    requires
        grid_inv(g),
        g.dom().contains(k),
        m == g[k],
        save_parse_inv(prev, g, done),
        out_new == prev + crate::codec::record_bytes(pos_of_key(k), m),
    ensures
        save_parse_inv(out_new, g, done.insert(k)),
{
    reveal(save_parse_inv);
    crate::lemma_pos_of_key_inverse(k);
    crate::codec::lemma_world_parse_extend(prev, 0, Map::empty(), pos_of_key(k), m);
    assert(g.restrict(done).insert(k, m) =~= g.restrict(done.insert(k)));
}

/// When every stored key has been serialized, the text parses back to
/// the whole grid.
proof fn lemma_save_done(g: Map<u64, Machine>, done: Set<u64>, ks: Seq<u64>, out: Seq<u8>)
    requires
        save_parse_inv(out, g, done),
        forall|k: u64| #[trigger] g.dom().contains(k) ==> ks.contains(k),
        forall|n: int| 0 <= n < ks.len() ==> done.contains(#[trigger] ks[n]),
        forall|k: u64| #[trigger] done.contains(k) ==> g.dom().contains(k),
    ensures
        crate::codec::spec_parse_world(out) == Some(g),
{
    reveal(save_parse_inv);
    assert(g.dom() =~= done);
    assert(g.restrict(done) =~= g);
}

impl World {
    /// Serialize the whole grid: one record per occupied cell, in an
    /// unspecified order. Whatever order comes out, parsing the text
    /// back yields exactly this grid.
    pub fn save(&self) -> (out: Vec<u8>)
        requires
            self.wf(),
        ensures
            crate::codec::spec_parse_world(out@) == Some(self.grid()),
    {
        let ghost g = self.grid();
        let ks = self.map.keys_vec();
        let mut out: Vec<u8> = Vec::new();
        let ghost done = Set::<u64>::empty();
        proof {
            lemma_save_init(g);
            assert(out@ =~= Seq::<u8>::empty());
        }
        let mut idx: usize = 0;
        while idx < ks.len()
            invariant
                self.wf(),
                g == self.grid(),
                forall|k: u64| #[trigger] g.dom().contains(k) ==> ks@.contains(k),
                forall|k: u64| #[trigger] ks@.contains(k) ==> g.dom().contains(k),
                idx <= ks@.len(),
                save_parse_inv(out@, g, done),
                forall|k: u64| #[trigger] done.contains(k) ==> g.dom().contains(k),
                forall|n: int| 0 <= n < idx ==> done.contains(#[trigger] ks@[n]),
            decreases ks@.len() - idx,
        {
            let k = ks[idx];
            proof {
                assert(ks@.contains(ks@[idx as int]));
            }
            let c = grid_key_pos(k);
            let m: Machine = match self.map.get(k) {
                Some(m) => *m,
                None => {
                    proof {
                        assert(false);
                    }
                    Machine { tower: Tower::Empty, buffer: 0, rate: 0 }
                },
            };
            let ghost prev = out@;
            crate::codec::render_record(c, &m, &mut out);
            proof {
                lemma_save_step(g, done, prev, out@, k, m);
                done = done.insert(k);
            }
            idx = idx + 1;
        }
        proof {
            lemma_save_done(g, done, ks@, out@);
        }
        out
    }

    /// Rebuild a world from save text: base zoom and window, empty
    /// focus, and exactly the recorded machines. Any malformed record
    /// fails the whole load; no partial world is produced.
    pub fn load(bytes: &[u8]) -> (r: Result<World, crate::codec::LoadError>)
        ensures
            match crate::codec::spec_parse_world(bytes@) {
                Some(g) => r matches Ok(w) && w.wf() && w.grid() == g && w.focus() is None
                    && w.ts_milli() == BASE_TILE_SIZE_MILLI && w.radius() == BASE_UPDATE_RADIUS
                    && w.seed_spec() == 0,
                None => r == Err::<World, crate::codec::LoadError>(
                    crate::codec::LoadError::Malformed,
                ),
            },
    {
        let slen = bytes.len();
        let mut map = TowerMap::new();
        let mut pos: usize = 0;
        while pos < slen
            invariant
                pos <= slen,
                slen == bytes@.len(),
                crate::codec::spec_parse_world_at(bytes@, pos as int, tower_map_model(map))
                    == crate::codec::spec_parse_world(bytes@),
            decreases slen - pos,
        {
            match crate::codec::parse_record(bytes, pos) {
                None => {
                    return Err(crate::codec::LoadError::Malformed);
                },
                Some(((k, m), j)) => {
                    let ghost model0 = tower_map_model(map);
                    map.insert(k, m);
                    proof {
                        assert(crate::codec::spec_parse_world_at(bytes@, pos as int, model0)
                            == crate::codec::spec_parse_world_at(
                            bytes@,
                            j as int,
                            model0.insert(k, m),
                        ));
                    }
                    pos = j;
                },
            }
        }
        proof {
            crate::codec::lemma_parse_world_inv(bytes@, 0, Map::empty());
        }
        Ok(
            World {
                map,
                seed: 0,
                enabled_gui: None,
                tilesize: BASE_TILE_SIZE_MILLI,
                update_radius: BASE_UPDATE_RADIUS,
                celestials: Vec::new(),
            },
        )
    }
}

/// The window of cells that can be visible on screen for a player at
/// `player` milli-cells: one spare column and row on each leading
/// edge, and a full screen of tiles.
pub open spec fn in_visible_window(c: GridPos, player: Fixed2, ts: int, sw: int, sh: int) -> bool {
    &&& player.x as int / 1000 - 1 <= c.x <= player.x as int / 1000 + (sw + ts - 1) / ts
    &&& player.y as int / 1000 - 1 <= c.y <= player.y as int / 1000 + (sh + ts - 1) / ts
}

/// The screen position every drawn tile of cell `c` must have.
pub open spec fn tile_screen_pos(c: GridPos, player: Fixed2, ts: int) -> Fixed2 {
    Fixed2 {
        x: w2s_axis(c.x as int, player.x as int, ts) as i64,
        y: w2s_axis(c.y as int, player.y as int, ts) as i64,
    }
}

impl World {
    /// The tiles to draw this frame and where on screen to draw them:
    /// every pair is an occupied cell with its camera-offset screen
    /// position, and every occupied cell in the visible window is
    /// listed. Whichever is smaller is walked: the visible window,
    /// probing each cell, or the whole set of placed machines.
    pub fn draw_plan(&self, player_cell: Fixed2, screen_w: i64, screen_h: i64) -> (plan: Vec<
        (GridPos, Fixed2),
    >)
        requires
            self.wf(),
            -1_000_000_000_000 <= player_cell.x <= 1_000_000_000_000,
            -1_000_000_000_000 <= player_cell.y <= 1_000_000_000_000,
            0 < screen_w <= 1_000_000_000,
            0 < screen_h <= 1_000_000_000,
        ensures
            forall|q: int| #![auto]
                0 <= q < plan@.len() ==> self.grid().dom().contains(key_of(plan@[q].0))
                    && plan@[q].1 == tile_screen_pos(
                    plan@[q].0,
                    player_cell,
                    self.ts_milli() as int,
                ),
            forall|c: GridPos| #![auto]
                self.grid().dom().contains(key_of(c)) && in_visible_window(
                    c,
                    player_cell,
                    self.ts_milli() as int,
                    screen_w as int,
                    screen_h as int,
                ) ==> plan@.contains(
                    (c, tile_screen_pos(c, player_cell, self.ts_milli() as int)),
                ),
    {
        let ghost g = self.grid();
        let ghost tsg = self.ts_milli() as int;
        let ts = self.tilesize as i64;
        let px = floor_div(player_cell.x, 1000);
        let py = floor_div(player_cell.y, 1000);
        let w_tiles: i64 = (screen_w + ts - 1) / ts;
        let h_tiles: i64 = (screen_h + ts - 1) / ts;
        proof {
            lemma_whole_cell_shift_bound(player_cell.x as int, px as int, ts as int);
            lemma_whole_cell_shift_bound(player_cell.y as int, py as int, ts as int);
            assert(0 <= (screen_w + ts - 1) as int / ts as int <= 1_000_000_000)
                by (nonlinear_arith)
                requires
                    3000 <= ts <= 256_000,
                    0 < screen_w <= 1_000_000_000,
            ;
            assert(0 <= (screen_h + ts - 1) as int / ts as int <= 1_000_000_000)
                by (nonlinear_arith)
                requires
                    3000 <= ts <= 256_000,
                    0 < screen_h <= 1_000_000_000,
            ;
        }
        let mut plan: Vec<(GridPos, Fixed2)> = Vec::new();
        proof {
            assert(0 <= w_tiles as int * h_tiles as int <= 1_000_000_000_000_000_000)
                by (nonlinear_arith)
                requires
                    0 <= w_tiles <= 1_000_000_000,
                    0 <= h_tiles <= 1_000_000_000,
            ;
        }
        if w_tiles < 100_000 && h_tiles < 100_000 && (w_tiles * h_tiles) < 4_000_000_000i64
            && ((w_tiles * h_tiles) as usize) < self.map.len() {
            // fewer window cells than placed machines: probe each
            // window cell.
            let mut tx: i64 = -1;
            while tx <= w_tiles
                invariant
                    self.wf(),
                    g == self.grid(),
                    tsg == self.ts_milli() as int,
                    ts == self.ts_milli() as i64,
                    -1_000_000_000_000 <= player_cell.x <= 1_000_000_000_000,
                    -1_000_000_000_000 <= player_cell.y <= 1_000_000_000_000,
                    px == player_cell.x as int / 1000,
                    py == player_cell.y as int / 1000,
                    -1_000_000_000 <= px <= 1_000_000_000,
                    -1_000_000_000 <= py <= 1_000_000_000,
                    0 <= w_tiles < 100_000,
                    0 <= h_tiles < 100_000,
                    w_tiles == (screen_w + ts - 1) as int / ts as int,
                    h_tiles == (screen_h + ts - 1) as int / ts as int,
                    -1 <= tx <= w_tiles + 1,
                    forall|q: int| #![auto]
                        0 <= q < plan@.len() ==> g.dom().contains(key_of(plan@[q].0))
                            && plan@[q].1 == tile_screen_pos(plan@[q].0, player_cell, tsg),
                    forall|c: GridPos| #![auto]
                        g.dom().contains(key_of(c)) && in_visible_window(
                            c,
                            player_cell,
                            tsg,
                            screen_w as int,
                            screen_h as int,
                        ) && c.x < px + tx ==> plan@.contains(
                            (c, tile_screen_pos(c, player_cell, tsg)),
                        ),
                decreases w_tiles + 1 - tx,
            {
                let mut ty: i64 = -1;
                while ty <= h_tiles
                    invariant
                        self.wf(),
                        g == self.grid(),
                        tsg == self.ts_milli() as int,
                        ts == self.ts_milli() as i64,
                        -1_000_000_000_000 <= player_cell.x <= 1_000_000_000_000,
                        -1_000_000_000_000 <= player_cell.y <= 1_000_000_000_000,
                        px == player_cell.x as int / 1000,
                        py == player_cell.y as int / 1000,
                        -1_000_000_000 <= px <= 1_000_000_000,
                        -1_000_000_000 <= py <= 1_000_000_000,
                        0 <= w_tiles < 100_000,
                        0 <= h_tiles < 100_000,
                        w_tiles == (screen_w + ts - 1) as int / ts as int,
                        h_tiles == (screen_h + ts - 1) as int / ts as int,
                        -1 <= tx <= w_tiles,
                        -1 <= ty <= h_tiles + 1,
                        forall|q: int| #![auto]
                            0 <= q < plan@.len() ==> g.dom().contains(key_of(plan@[q].0))
                                && plan@[q].1 == tile_screen_pos(plan@[q].0, player_cell, tsg),
                        forall|c: GridPos| #![auto]
                            g.dom().contains(key_of(c)) && in_visible_window(
                                c,
                                player_cell,
                                tsg,
                                screen_w as int,
                                screen_h as int,
                            ) && (c.x < px + tx || (c.x == px + tx && c.y < py + ty))
                                ==> plan@.contains((c, tile_screen_pos(c, player_cell, tsg))),
                    decreases h_tiles + 1 - ty,
                {
                    let c = GridPos { x: (px + tx) as i32, y: (py + ty) as i32 };
                    let k = grid_key(c);
                    if self.map.get(k).is_some() {
                        let p = self.world_to_screen(c, player_cell);
                        let ghost prev = plan@;
                        plan.push((c, p));
                        proof {
                            assert(plan@[plan@.len() - 1] == (
                                c,
                                tile_screen_pos(c, player_cell, tsg),
                            ));
                            assert(forall|q: int|
                                0 <= q < prev.len() ==> plan@[q] == #[trigger] prev[q]);
                        }
                    }
                    ty = ty + 1;
                }
                tx = tx + 1;
            }
            plan
        } else {
            // walk every placed machine instead.
            let ks = self.map.keys_vec();
            let mut idx: usize = 0;
            while idx < ks.len()
                invariant
                    self.wf(),
                    g == self.grid(),
                    tsg == self.ts_milli() as int,
                    -1_000_000_000_000 <= player_cell.x <= 1_000_000_000_000,
                    -1_000_000_000_000 <= player_cell.y <= 1_000_000_000_000,
                    idx <= ks@.len(),
                    forall|k: u64| #[trigger] ks@.contains(k) ==> g.dom().contains(k),
                    forall|k: u64| #[trigger] g.dom().contains(k) ==> ks@.contains(k),
                    forall|q: int| #![auto]
                        0 <= q < plan@.len() ==> g.dom().contains(key_of(plan@[q].0))
                            && plan@[q].1 == tile_screen_pos(plan@[q].0, player_cell, tsg),
                    forall|n: int| #![auto]
                        0 <= n < idx ==> plan@.contains(
                            (
                                pos_of_key(ks@[n]),
                                tile_screen_pos(pos_of_key(ks@[n]), player_cell, tsg),
                            ),
                        ),
                decreases ks@.len() - idx,
            {
                let k = ks[idx];
                proof {
                    assert(ks@.contains(ks@[idx as int]));
                    crate::lemma_pos_of_key_inverse(k);
                }
                let c = grid_key_pos(k);
                let p = self.world_to_screen(c, player_cell);
                let ghost prev = plan@;
                plan.push((c, p));
                proof {
                    assert(plan@[plan@.len() - 1] == (c, tile_screen_pos(c, player_cell, tsg)));
                    assert(forall|q: int| 0 <= q < prev.len() ==> plan@[q] == #[trigger] prev[q]);
                }
                idx = idx + 1;
            }
            proof {
                assert forall|c: GridPos| #![auto]
                    g.dom().contains(key_of(c)) && in_visible_window(
                        c,
                        player_cell,
                        tsg,
                        screen_w as int,
                        screen_h as int,
                    ) implies plan@.contains(
                    (c, tile_screen_pos(c, player_cell, tsg)),
                ) by {
                    assert(ks@.contains(key_of(c)));
                    let n = choose|n: int| 0 <= n < ks@.len() && ks@[n] == key_of(c);
                    crate::lemma_key_of_inverse(c);
                    assert(pos_of_key(ks@[n]) == c);
                }
            }
            plan
        }
    }
}

/// Placing a machine and reading the cell back gives that machine; in
/// particular its type tag is the one placed.
pub proof fn lemma_set_then_get(g: Map<u64, Machine>, c: GridPos, m: Machine)
    requires
        m.tower != Tower::Empty,
    ensures
        tower_at(g.insert(key_of(c), m), c) == m,
{
}

/// Erasing a cell removes any prior occupant: afterwards the cell's
/// key resolves to nothing.
pub proof fn lemma_erase_then_try_get(g: Map<u64, Machine>, c: GridPos)
    ensures
        !g.remove(key_of(c)).dom().contains(key_of(c)),
        tower_at(g.remove(key_of(c)), c) == empty_machine(),
{
}

/// Erasing an already-empty cell is a no-op: the grid is unchanged
/// and there was no occupant to return.
pub proof fn lemma_erase_empty_noop(g: Map<u64, Machine>, c: GridPos)
    requires
        !g.dom().contains(key_of(c)),
    ensures
        g.remove(key_of(c)) == g,
{
    assert(g.remove(key_of(c)) =~= g);
}

/// The update-window boundary: a cell exactly half the window side
/// away from the player is inside the window and is simulated; one
/// placed one cell further out is not.
pub proof fn lemma_update_window_boundary(player: GridPos, radius: u32, c: GridPos)
    requires
        radius >= 1,
    ensures
        c.x == player.x - radius / 2 && c.y == player.y ==> in_update_window(player, radius, c),
        c.x == player.x - radius / 2 - 1 ==> !in_update_window(player, radius, c),
        c.y == player.y - radius / 2 - 1 ==> !in_update_window(player, radius, c),
{
}

/// GUI-focus exclusivity: with the panel open on occupied cell `a`, a
/// qualifying click (left release, build tool inactive, outside the
/// panel) on a different occupied cell `b` moves the focus to `b`
/// alone; the same click back on `a` clears the focus entirely.
pub proof fn lemma_focus_exclusivity(
    g: Map<u64, Machine>,
    a: GridPos,
    b: GridPos,
    current: Tower,
    inp: InteractInput,
)
    requires
        !inp.escape_released,
        inp.left_released,
        current == Tower::Empty,
        g.dom().contains(key_of(a)),
        g.dom().contains(key_of(b)),
        !rect_contains(panel_rect_spec(inp.screen_w, inp.screen_h), inp.mouse),
    ensures
        a != b ==> interact_focus_next(g, Some(a), current, b, inp) == Some(b),
        interact_focus_next(g, Some(a), current, a, inp) is None,
{
}

/// One zoom notch: multiply by 11/10 when scrolling up, by 10/11 when
/// scrolling down, rounding down.
pub open spec fn zoom_step(ts: u32, wheel_y: i32) -> int {
    if wheel_y > 0 {
        (ts * 11) / 10
    } else if wheel_y < 0 {
        (ts * 10) / 11
    } else {
        ts as int
    }
}

/// Clamp a zoom level into the allowed band.
pub open spec fn clamp_ts(v: int) -> u32 {
    if v < MIN_TILE_SIZE_MILLI {
        MIN_TILE_SIZE_MILLI
    } else if v > MAX_TILE_SIZE_MILLI {
        MAX_TILE_SIZE_MILLI
    } else {
        v as u32
    }
}

impl World {
    /// Apply one scroll notch to the zoom level. However often this is
    /// repeated, the tile size stays within the allowed band.
    pub fn control_tilesize(&mut self, wheel_y: i32)
        requires
            old(self).wf(),
        ensures
            final(self).wf(),
            final(self).ts_milli() == clamp_ts(zoom_step(old(self).ts_milli(), wheel_y)),
            MIN_TILE_SIZE_MILLI <= final(self).ts_milli() <= MAX_TILE_SIZE_MILLI,
            final(self).grid() == old(self).grid(),
            final(self).focus() == old(self).focus(),
            final(self).radius() == old(self).radius(),
            final(self).seed_spec() == old(self).seed_spec(),
    {
        let ts = self.tilesize;
        let v: u32 = if wheel_y > 0 {
            (ts * 11) / 10
        } else if wheel_y < 0 {
            (ts * 10) / 11
        } else {
            ts
        };
        self.tilesize = if v < MIN_TILE_SIZE_MILLI {
            MIN_TILE_SIZE_MILLI
        } else if v > MAX_TILE_SIZE_MILLI {
            MAX_TILE_SIZE_MILLI
        } else {
            v
        };
    }
}

} // verus!
