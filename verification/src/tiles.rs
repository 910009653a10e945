//! Map cells: walls, doors, and the two passable tile kinds that own ground
//! storage.

use vstd::prelude::*;

use crate::items::{ItemContainer, Items, CONTAINER_CAPACITY};

verus! {

/// An indoor passable tile owning an item container.
pub struct FloorTile(pub Box<ItemContainer>);

/// An outdoor passable tile owning an item container.
pub struct RoadTile(pub Box<ItemContainer>);

impl FloorTile {
    /// A floor tile with an empty container.
    pub fn new() -> (t: Self)
        ensures
            t.0.wf(),
            forall|i: int| 0 <= i < CONTAINER_CAPACITY ==> t.0@[i] is None,
    {
        Self(Box::new(ItemContainer::new()))
    }
}

impl RoadTile {
    /// A road tile with an empty container.
    pub fn new() -> (t: Self)
        ensures
            t.0.wf(),
            forall|i: int| 0 <= i < CONTAINER_CAPACITY ==> t.0@[i] is None,
    {
        Self(Box::new(ItemContainer::new()))
    }
}

/// One map cell. Identity is fixed at creation; only a door's open flag and
/// the container contents of road/floor tiles ever change in place.
pub enum Tiles {
    Road(RoadTile),
    Wall,
    Floor(FloorTile),
    Door(bool),
}

impl Tiles {
    /// Invariant: a tile's container, where it has one, keeps its capacity.
    pub open spec fn wf(&self) -> bool {
        match self {
            Tiles::Road(t) => t.0.wf(),
            Tiles::Floor(t) => t.0.wf(),
            Tiles::Wall => true,
            Tiles::Door(_) => true,
        }
    }

    /// A player may occupy road tiles, floor tiles, and open doors.
    pub open spec fn is_passable(&self) -> bool {
        match self {
            Tiles::Wall => false,
            Tiles::Door(open) => *open,
            Tiles::Road(_) => true,
            Tiles::Floor(_) => true,
        }
    }

    /// Exactly road and floor tiles expose ground storage.
    pub open spec fn has_container(&self) -> bool {
        self is Road || self is Floor
    }

    /// The slots of this tile's container; meaningful only when
    /// `has_container()` holds.
    pub open spec fn container_seq(&self) -> Seq<Option<Items>> {
        match self {
            Tiles::Road(t) => t.0@,
            Tiles::Floor(t) => t.0@,
            Tiles::Wall => arbitrary(),
            Tiles::Door(_) => arbitrary(),
        }
    }

    /// The tile with every door flipped; identical for all other kinds.
    pub open spec fn toggled(self) -> Tiles {
        match self {
            Tiles::Door(open) => Tiles::Door(!open),
            _ => self,
        }
    }

    /// `post` is `pre` with only its container contents replaced by `c`.
    pub open spec fn container_replaced(pre: Tiles, post: Tiles, c: Seq<Option<Items>>) -> bool {
        match pre {
            Tiles::Road(_) => post is Road && post.container_seq() == c,
            Tiles::Floor(_) => post is Floor && post.container_seq() == c,
            Tiles::Wall => post == pre,
            Tiles::Door(_) => post == pre,
        }
    }

    /// The tile's container, if it carries one.
    pub fn get_items(&self) -> (r: Option<&ItemContainer>)
        ensures
            match r {
                Some(c) => self.has_container() && c@ == self.container_seq(),
                None => !self.has_container(),
            },
    {
        match self {
            Tiles::Road(RoadTile(items)) => Some(&**items),
            Tiles::Wall => None,
            Tiles::Door(_) => None,
            Tiles::Floor(FloorTile(items)) => Some(&**items),
        }
    }

    /// Mutable access to the tile's container, if it carries one. The tile
    /// keeps its kind; only the container contents follow the reference.
    pub fn get_items_mut(&mut self) -> (r: Option<&mut ItemContainer>)
        ensures
            match r {
                Some(c) => old(self).has_container()
                    && c@ == old(self).container_seq()
                    && Tiles::container_replaced(*old(self), *final(self), final(c)@),
                None => !old(self).has_container() && *final(self) == *old(self),
            },
    {
        match self {
            Tiles::Road(RoadTile(items)) => Some(&mut **items),
            Tiles::Wall => None,
            Tiles::Door(_) => None,
            Tiles::Floor(FloorTile(items)) => Some(&mut **items),
        }
    }
}

} // verus!
