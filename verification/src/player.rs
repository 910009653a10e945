//! The player: position, capped stats, inventory, selection cursor, and the
//! pending compound action.

use vstd::prelude::*;

use crate::items::{ItemContainer, CONTAINER_CAPACITY};
use crate::stat::Stat;

verus! {

/// Highest virtual slot index: `0..=8` address the inventory, `9..=17` the
/// ground container of the tile the player stands on.
pub const MAX_SLOT: i32 = 17;

/// A multi-step command awaiting confirmation. At most one is pending at a
/// time; it is cleared on confirmation or explicit cancellation.
pub enum CompoundAction {
    SwapItem(i32),
}

/// The player state threaded through the command processor.
pub struct Player {
    pub x: i32,
    pub y: i32,
    pub items: ItemContainer,
    pub selected_slot: i32,
    pub action: Option<CompoundAction>,
    pub health: Stat,
    pub hunger: Stat,
    pub stamina: Stat,
}

impl Player {
    /// Invariant: the inventory keeps its capacity, every stat stays within
    /// its cap, and the cursor and any pending source slot stay in the
    /// virtual slot range.
    pub open spec fn wf(&self) -> bool {
        &&& self.items.wf()
        &&& 0 <= self.selected_slot <= MAX_SLOT
        &&& self.health.wf()
        &&& self.hunger.wf()
        &&& self.stamina.wf()
        &&& match self.action {
            Some(CompoundAction::SwapItem(s)) => 0 <= s <= MAX_SLOT,
            None => true,
        }
    }

    /// A freshly born player: empty inventory, cursor on slot 0, no pending
    /// action, and all three stats full at 10.
    pub fn new(x: i32, y: i32) -> (p: Self)
        ensures
            p.x == x,
            p.y == y,
            p.selected_slot == 0,
            p.action is None,
            p.health.value == 10 && p.health.max == 10,
            p.hunger.value == 10 && p.hunger.max == 10,
            p.stamina.value == 10 && p.stamina.max == 10,
            forall|i: int| 0 <= i < CONTAINER_CAPACITY ==> p.items@[i] is None,
            p.wf(),
    {
        Self {
            x,
            y,
            items: ItemContainer::new(),
            selected_slot: 0,
            action: None,
            health: Stat::new(10),
            hunger: Stat::new(10),
            stamina: Stat::new(10),
        }
    }
}

} // verus!
