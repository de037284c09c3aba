//! The placement/erase tool state machine.
//!
//! `current == Tower::Empty` is the `Inactive` state (the erase tool);
//! any other tag is `Selecting(tag)`. The hotbar writes the selection;
//! the per-frame step commits placements into the world.

use vstd::prelude::*;

use crate::Fixed2;
use crate::tiles::World;
use crate::tower::Tower;

verus! {

pub struct BuildMode {
    pub current: Tower,
}

/// The inputs one frame hands to the build tool.
#[derive(Clone, Copy, Debug, PartialEq, Eq, Structural)]
pub struct BuildInput {
    /// The pointer is over the hotbar strip; everything is suppressed.
    pub on_hotbar: bool,
    pub left_down: bool,
    pub right_down: bool,
    pub right_released: bool,
    pub escape_released: bool,
}

impl BuildMode {
    /// Starts out inactive.
    pub fn new() -> (r: BuildMode)
        ensures
            r.current == Tower::Empty,
    {
        BuildMode { current: Tower::Empty }
    }

    /// One frame of the build tool, against the cell under the
    /// pointer. Returns the tag whose translucent preview should be
    /// drawn at that cell, or none when the tool is idle or was just
    /// cancelled.
    ///
    /// Over the hotbar everything is suppressed. Releasing the right
    /// button or Escape while selecting cancels back to inactive with
    /// nothing placed. While selecting, a held left button commits a
    /// placement every frame; while inactive, a held right button
    /// paints erasure the same way.
    pub fn step(
        &mut self,
        world: &mut World,
        mouse: Fixed2,
        player_cell: Fixed2,
        inp: BuildInput,
    ) -> (preview: Option<Tower>)
        requires
            old(world).wf(),
            -1_000_000_000_000 <= mouse.x <= 1_000_000_000_000,
            -1_000_000_000_000 <= mouse.y <= 1_000_000_000_000,
            -1_000_000_000_000 <= player_cell.x <= 1_000_000_000_000,
            -1_000_000_000_000 <= player_cell.y <= 1_000_000_000_000,
        ensures
            final(world).wf(),
            final(world).focus() == old(world).focus(),
            final(world).ts_milli() == old(world).ts_milli(),
            final(world).radius() == old(world).radius(),
            final(world).seed_spec() == old(world).seed_spec(),
            build_step_idle(*old(self), inp) ==> final(self).current == old(self).current
                && final(world).grid() == old(world).grid() && preview is None,
            build_step_cancel(*old(self), inp) ==> final(self).current == Tower::Empty
                && final(world).grid() == old(world).grid() && preview is None,
            build_step_active(*old(self), inp) ==> final(self).current == old(self).current
                && preview == Some(old(self).current) && final(world).grid() == (
            if build_step_commits(*old(self), inp) {
                committed_grid(
                    old(world).grid(),
                    old(self).current,
                    crate::tiles::s2w_cell(mouse, player_cell, old(world).ts_milli() as int),
                )
            } else {
                old(world).grid()
            }),
    {
        if inp.on_hotbar {
            return None;
        }
        if matches!(self.current, Tower::Empty) && !inp.right_down {
            return None;
        }
        if inp.right_released || inp.escape_released {
            self.current = Tower::Empty;
            return None;
        }
        let world_cell = world.screen_to_world(mouse, player_cell);
        if inp.left_down || (inp.right_down && matches!(self.current, Tower::Empty)) {
            let machine = match self.current.new_machine() {
                Some(m) => m,
                None => {
                    proof {
                        assert(false);
                    }
                    return None;
                },
            };
            let _prev = world.set_tower(world_cell, machine);
        }
        Some(self.current)
    }
}

/// The tool does nothing this frame: the pointer is over the hotbar,
/// or the tool is inactive with no erase in progress.
pub open spec fn build_step_idle(b: BuildMode, inp: BuildInput) -> bool {
    inp.on_hotbar || (b.current == Tower::Empty && !inp.right_down)
}

/// The tool is cancelled back to inactive this frame.
pub open spec fn build_step_cancel(b: BuildMode, inp: BuildInput) -> bool {
    !build_step_idle(b, inp) && (inp.right_released || inp.escape_released)
}

/// The tool stays active this frame: a preview is drawn and a commit
/// may happen.
pub open spec fn build_step_active(b: BuildMode, inp: BuildInput) -> bool {
    !build_step_idle(b, inp) && !build_step_cancel(b, inp)
}

/// An active frame commits: a held left button places the selection;
/// a held right button with the tool inactive paints erasure.
pub open spec fn build_step_commits(b: BuildMode, inp: BuildInput) -> bool {
    inp.left_down || (inp.right_down && b.current == Tower::Empty)
}

/// What the grid becomes when tag `t` is committed at `cell`: erasure
/// for the sentinel, a default-state machine otherwise.
pub open spec fn committed_grid(
    g: Map<u64, crate::tower::Machine>,
    t: Tower,
    cell: crate::GridPos,
) -> Map<u64, crate::tower::Machine> {
    if t == Tower::Empty {
        g.remove(crate::key_of(cell))
    } else {
        g.insert(crate::key_of(cell), t.factory_spec())
    }
}

/// Starting inactive, selecting a buildable tag and then pressing
/// Escape returns the tool to inactive with nothing committed: the
/// cancel step never touches the grid.
pub proof fn lemma_select_then_escape(b: BuildMode, inp: BuildInput)
    requires
        b.current != Tower::Empty,
        !inp.on_hotbar,
        inp.escape_released,
    ensures
        build_step_cancel(b, inp),
        !build_step_active(b, inp),
        !build_step_idle(b, inp),
{
}

} // verus!
