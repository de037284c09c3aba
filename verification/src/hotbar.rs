//! The hotbar: a fixed strip of slots holding every buildable tower
//! tag in enumeration order, and the click-to-select logic.

use vstd::prelude::*;

use crate::Fixed2;
use crate::build_mode::BuildMode;
use crate::tower::Tower;

verus! {

pub const SLOTS: usize = 10;

/// The slot contents: every buildable tag in enumeration order, then
/// empty slots up to the fixed strip size.
pub open spec fn hotbar_slots() -> Seq<Tower> {
    seq![
        Tower::Electron,
        Tower::AntimatterCollector,
        Tower::Empty,
        Tower::Empty,
        Tower::Empty,
        Tower::Empty,
        Tower::Empty,
        Tower::Empty,
        Tower::Empty,
        Tower::Empty,
    ]
}

/// The hotbar holds a tag exactly when the tag is buildable; the
/// sentinel marks the unused slots and never counts as an entry.
pub proof fn lemma_hotbar_shows_buildable(t: Tower)
    ensures
        t != Tower::Empty ==> (hotbar_slots().contains(t) <==> t.buildable_spec()),
{
    if t.buildable_spec() {
        if t == Tower::Electron {
            assert(hotbar_slots()[0] == t);
        } else {
            assert(hotbar_slots()[1] == t);
        }
    }
}

pub struct Hotbar {
    slots: Vec<Tower>,
}

/// Whether the pointer is over the hotbar strip: a 50-pixel band at
/// the bottom of the screen, inset 100 pixels on each side.
pub open spec fn on_hotbar_spec(mouse: Fixed2, screen_w: int, screen_h: int) -> bool {
    &&& mouse.y >= screen_h - 50_000
    &&& mouse.y < screen_h
    &&& mouse.x > 100_000
    &&& mouse.x < screen_w - 100_000
}

/// Which slot the pointer's x coordinate falls in.
pub open spec fn slot_index_spec(mx: int, screen_w: int) -> int {
    ((mx - 100_000) * 10) / (screen_w - 200_000)
}

impl Hotbar {
    pub closed spec fn slots_spec(self) -> Seq<Tower> {
        self.slots@
    }

    pub open spec fn wf(self) -> bool {
        self.slots_spec() == hotbar_slots()
    }

    /// Populated once at construction with every buildable tag in
    /// enumeration order.
    pub fn new() -> (r: Hotbar)
        ensures
            r.wf(),
    {
        let mut slots: Vec<Tower> = Vec::new();
        slots.push(Tower::Electron);
        slots.push(Tower::AntimatterCollector);
        while slots.len() < SLOTS
            invariant
                2 <= slots@.len() <= 10,
                forall|i: int| 0 <= i < slots@.len() ==> slots@[i] == hotbar_slots()[i],
            decreases 10 - slots@.len(),
        {
            slots.push(Tower::Empty);
        }
        proof {
            assert(slots@ =~= hotbar_slots());
        }
        Hotbar { slots }
    }

    /// The tag in slot `i`.
    pub fn slot(&self, i: usize) -> (t: Tower)
        requires
            self.wf(),
            i < SLOTS,
        ensures
            t == hotbar_slots()[i as int],
    {
        self.slots[i]
    }

    /// One frame of the hotbar: reports whether the pointer is over
    /// the strip, and a left release over a slot writes that slot's
    /// tag into the build tool (an empty slot deselects).
    pub fn select(
        &self,
        build_mode: &mut BuildMode,
        mouse: Fixed2,
        screen_w: i64,
        screen_h: i64,
        left_released: bool,
    ) -> (on_hotbar: bool)
        requires
            self.wf(),
            300_000 < screen_w <= 1_000_000_000,
            0 < screen_h <= 1_000_000_000,
        ensures
            on_hotbar == on_hotbar_spec(mouse, screen_w as int, screen_h as int),
            final(build_mode).current == (if on_hotbar_spec(mouse, screen_w as int, screen_h as int)
                && left_released {
                hotbar_slots()[slot_index_spec(mouse.x as int, screen_w as int)]
            } else {
                old(build_mode).current
            }),
    {
        let x: i64 = 100_000;
        let w: i64 = screen_w - 200_000;
        let h: i64 = 50_000;
        let y: i64 = screen_h - h;
        let on_hotbar = mouse.y >= y && mouse.y < y + h && mouse.x > x && mouse.x < x + w;
        if on_hotbar && left_released {
            let idx64: i64 = ((mouse.x - x) * 10) / w;
            proof {
                assert(0 <= ((mouse.x - x) as int * 10) / (w as int) < 10) by (nonlinear_arith)
                    requires
                        0 < mouse.x - x < w,
                        0 < w,
                ;
            }
            let idx: usize = idx64 as usize;
            build_mode.current = self.slots[idx];
        }
        on_hotbar
    }
}

} // verus!
