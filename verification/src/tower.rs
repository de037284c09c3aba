//! The closed set of tower tags and the live machine state.
//!
//! The reference design dispatches machine behaviour through a tag
//! carried next to the mutable state; the tag and the behaviour are set
//! together at construction and never diverge.

use vstd::prelude::*;

verus! {

/// The closed, small set of tower tags. `Empty` is the sentinel
/// "no machine here" tag and is never stored as an occupant.
#[derive(Clone, Copy, Debug, PartialEq, Eq, Structural)]
pub enum Tower {
    Empty,
    Electron,
    StringCreator,
    AntimatterCollector,
    Energy,
}

/// A live machine: the immutable tag, a resource buffer and a
/// collection rate, both in thousandths of a resource unit.
#[derive(Clone, Copy, Debug, PartialEq, Eq, Structural)]
pub struct Machine {
    pub tower: Tower,
    /// Accumulated resource, in thousandths.
    pub buffer: u64,
    /// Collection rate, in thousandths of a resource unit per second.
    pub rate: u64,
}

impl Tower {
    /// Enumeration order of the tags; the hotbar and the texture cache
    /// go by it.
    pub open spec fn index_spec(self) -> int {
        match self {
            Tower::Empty => 0,
            Tower::Electron => 1,
            Tower::StringCreator => 2,
            Tower::AntimatterCollector => 3,
            Tower::Energy => 4,
        }
    }

    pub fn index(self) -> (i: usize)
        ensures
            i == self.index_spec(),
            i < 5,
    {
        match self {
            Tower::Empty => 0,
            Tower::Electron => 1,
            Tower::StringCreator => 2,
            Tower::AntimatterCollector => 3,
            Tower::Energy => 4,
        }
    }

    /// All tags, in enumeration order.
    pub fn all() -> (r: Vec<Tower>)
        ensures
            r@.len() == 5,
            forall|i: int| 0 <= i < 5 ==> (#[trigger] r@[i]).index_spec() == i,
    {
        let mut v: Vec<Tower> = Vec::new();
        v.push(Tower::Empty);
        v.push(Tower::Electron);
        v.push(Tower::StringCreator);
        v.push(Tower::AntimatterCollector);
        v.push(Tower::Energy);
        v
    }

    /// Whether the tag appears in the hotbar.
    pub open spec fn buildable_spec(self) -> bool {
        self == Tower::Electron || self == Tower::AntimatterCollector
    }

    pub fn buildable(self) -> (r: bool)
        ensures
            r == self.buildable_spec(),
    {
        match self {
            Tower::Electron => true,
            Tower::AntimatterCollector => true,
            _ => false,
        }
    }

    /// The asset file that the renderer loads for this tag.
    pub fn texture_path(self) -> (r: &'static str)
        ensures
            r@ == self.texture_path_spec(),
    {
        match self {
            Tower::Empty => "empty.png",
            Tower::Electron => "electron.png",
            Tower::StringCreator => "string creator.png",
            Tower::AntimatterCollector => "antimatter_collector.png",
            Tower::Energy => "energy.png",
        }
    }

    pub open spec fn texture_path_spec(self) -> Seq<char> {
        match self {
            Tower::Empty => "empty.png"@,
            Tower::Electron => "electron.png"@,
            Tower::StringCreator => "string creator.png"@,
            Tower::AntimatterCollector => "antimatter_collector.png"@,
            Tower::Energy => "energy.png"@,
        }
    }

    /// The default-state machine for this tag: an empty buffer and the
    /// tag's base collection rate.
    pub open spec fn factory_spec(self) -> Machine {
        Machine { tower: self, buffer: 0, rate: self.base_rate_spec() }
    }

    /// Base collection rate per tag, in thousandths per second.
    pub open spec fn base_rate_spec(self) -> u64 {
        match self {
            Tower::Empty => 0,
            Tower::Electron => 1000,
            Tower::StringCreator => 1000,
            Tower::AntimatterCollector => 1000,
            Tower::Energy => 1_000_000_000_000,
        }
    }

    /// Factory: a default-state machine instance for this tag, or none
    /// where the tag cannot be instantiated. Every current tag has a
    /// factory; the option is the recoverable "placement rejected"
    /// path kept for decorative-only tags.
    pub fn new_machine(self) -> (r: Option<Machine>)
        ensures
            r == Some(self.factory_spec()),
    {
        let rate: u64 = match self {
            Tower::Empty => 0,
            Tower::Electron => 1000,
            Tower::StringCreator => 1000,
            Tower::AntimatterCollector => 1000,
            Tower::Energy => 1_000_000_000_000,
        };
        Some(Machine { tower: self, buffer: 0, rate })
    }
}

impl Default for Tower {
    /// The sentinel tag.
    fn default() -> (r: Tower)
        ensures
            r == Tower::Empty,
    {
        Tower::Empty
    }
}

/// A left-button release landed inside the rectangle.
pub fn is_clicked(r: crate::gui::Rect, mouse: crate::Fixed2, left_released: bool) -> (b: bool)
    requires
        -0x1000_0000_0000_0000 < r.x + r.w < 0x1000_0000_0000_0000,
        -0x1000_0000_0000_0000 < r.y + r.h < 0x1000_0000_0000_0000,
    ensures
        b == (left_released && crate::gui::rect_contains(r, mouse)),
{
    let in_bounds = r.contains(mouse);
    left_released && in_bounds
}

/// The sentinel machine handed out for unoccupied cells.
#[derive(Clone, Copy)]
pub struct EmptyMachine {}

impl EmptyMachine {
    /// The machine value standing for "no machine here".
    pub fn machine(&self) -> (r: Machine)
        ensures
            r == empty_machine(),
    {
        Machine { tower: Tower::Empty, buffer: 0, rate: 0 }
    }
}

pub open spec fn empty_machine() -> Machine {
    Machine { tower: Tower::Empty, buffer: 0, rate: 0 }
}

/// One simulation step of a machine over `dt` thousandths of a second:
/// the buffer grows by `rate * dt / 1000`, saturating at the
/// representable maximum; the tag and the rate never change. The
/// sentinel does nothing.
pub open spec fn stepped(m: Machine, dt: u64) -> Machine {
    if m.tower == Tower::Empty {
        m
    } else {
        Machine { tower: m.tower, buffer: sat_u64(m.buffer + gain_of(m.rate, dt)), rate: m.rate }
    }
}

/// Resource gained over `dt` thousandths of a second at `rate`
/// thousandths per second.
pub open spec fn gain_of(rate: u64, dt: u64) -> int {
    (rate * dt) / 1000
}

pub open spec fn sat_u64(v: int) -> u64 {
    if v > u64::MAX {
        u64::MAX
    } else {
        v as u64
    }
}

impl Machine {
    /// The immutable type tag.
    pub fn ty(&self) -> (t: Tower)
        ensures
            t == self.tower,
    {
        self.tower
    }

    /// Advance this machine by `dt` thousandths of a second.
    pub fn update(&mut self, dt: u64)
        ensures
            *final(self) == stepped(*old(self), dt),
    {
        if let Tower::Empty = self.tower {
            return ;
        }
        proof {
            assert((self.rate as int) * (dt as int) <= u128::MAX) by (nonlinear_arith)
                requires
                    self.rate <= u64::MAX,
                    dt <= u64::MAX,
            ;
        }
        let wide: u128 = (self.rate as u128) * (dt as u128) / 1000;
        let gain: u64 = if wide > u64::MAX as u128 {
            u64::MAX
        } else {
            wide as u64
        };
        proof {
            assert((self.rate as u128) * (dt as u128) == self.rate * dt) by (nonlinear_arith);
            assert(gain as int == if gain_of(self.rate, dt) > u64::MAX {
                u64::MAX as int
            } else {
                gain_of(self.rate, dt)
            });
        }
        if self.buffer > u64::MAX - gain {
            self.buffer = u64::MAX;
        } else {
            self.buffer = self.buffer + gain;
        }
    }
}

} // verus!
