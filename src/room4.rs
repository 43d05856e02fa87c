use crate::direction4::{
    complement_bits, is_direction_bit, Direction4, EAST_BIT, NORTH_BIT, SOUTH_BIT, WEST_BIT,
};
use crate::room4_list::{linked_back, Room4List, RoomIndex};
use vstd::prelude::*;

verus! {

/// The walls of a four-sided room.
pub type Wall4 = Direction4;

/// The doors of a four-sided room.
pub type Door4 = Direction4;

/// A four-sided room of a [`Room4List`], with an optional neighbor behind
/// each side and a tag of the caller's choice.
#[derive(Debug)]
pub struct Room4<Tag> {
    pub(crate) index: RoomIndex,
    pub(crate) north: Option<RoomIndex>,
    pub(crate) south: Option<RoomIndex>,
    pub(crate) east: Option<RoomIndex>,
    pub(crate) west: Option<RoomIndex>,
    pub tag: Tag,
}

/// The bit `b` when `present` holds, else no bit.
pub open spec fn bit_if(present: bool, b: u8) -> u8 {
    if present {
        b
    } else {
        0
    }
}

/// The doors of a room with the given neighbors present.
pub open spec fn doors_bits(north: bool, south: bool, east: bool, west: bool) -> u8 {
    bit_if(north, NORTH_BIT) | bit_if(south, SOUTH_BIT) | bit_if(east, EAST_BIT) | bit_if(
        west,
        WEST_BIT,
    )
}

impl<Tag> Room4<Tag> {
    /// The index of this room.
    pub open(crate) spec fn spec_index(&self) -> RoomIndex {
        self.index
    }

    /// The neighbor to the north.
    pub open(crate) spec fn spec_north(&self) -> Option<RoomIndex> {
        self.north
    }

    /// The neighbor to the south.
    pub open(crate) spec fn spec_south(&self) -> Option<RoomIndex> {
        self.south
    }

    /// The neighbor to the east.
    pub open(crate) spec fn spec_east(&self) -> Option<RoomIndex> {
        self.east
    }

    /// The neighbor to the west.
    pub open(crate) spec fn spec_west(&self) -> Option<RoomIndex> {
        self.west
    }

    /// A room at `index` with the tag `tag` and no neighbors.
    pub open(crate) spec fn spec_new(index: RoomIndex, tag: Tag) -> Room4<Tag> {
        Room4 { index, north: None, south: None, east: None, west: None, tag }
    }

    /// This room with its four neighbors replaced.
    pub open(crate) spec fn spec_with_links(
        self,
        north: Option<RoomIndex>,
        south: Option<RoomIndex>,
        east: Option<RoomIndex>,
        west: Option<RoomIndex>,
    ) -> Room4<Tag> {
        Room4 { north, south, east, west, ..self }
    }

    /// This room with its northern neighbor replaced.
    pub open(crate) spec fn spec_with_north(self, room: Option<RoomIndex>) -> Room4<Tag> {
        Room4 { north: room, ..self }
    }

    /// This room with its southern neighbor replaced.
    pub open(crate) spec fn spec_with_south(self, room: Option<RoomIndex>) -> Room4<Tag> {
        Room4 { south: room, ..self }
    }

    /// This room with its eastern neighbor replaced.
    pub open(crate) spec fn spec_with_east(self, room: Option<RoomIndex>) -> Room4<Tag> {
        Room4 { east: room, ..self }
    }

    /// This room with its western neighbor replaced.
    pub open(crate) spec fn spec_with_west(self, room: Option<RoomIndex>) -> Room4<Tag> {
        Room4 { west: room, ..self }
    }

    /// The neighbor behind the side `d`, one direction bit.
    pub open spec fn spec_neighbor(&self, d: u8) -> Option<RoomIndex> {
        if d == NORTH_BIT {
            self.spec_north()
        } else if d == SOUTH_BIT {
            self.spec_south()
        } else if d == EAST_BIT {
            self.spec_east()
        } else {
            self.spec_west()
        }
    }

    /// The doors of this room: the sides with a neighbor.
    pub open spec fn spec_doors(&self) -> u8 {
        doors_bits(
            self.spec_north() is Some,
            self.spec_south() is Some,
            self.spec_east() is Some,
            self.spec_west() is Some,
        )
    }

    /// A room at `index` with the tag `tag` and no neighbors.
    pub fn new_empty(index: RoomIndex, tag: Tag) -> (r: Self)
        ensures
            r == Self::spec_new(index, tag),
    {
        Room4 { tag, index, north: None, south: None, east: None, west: None }
    }

    /// Sets the neighbor behind the side `direction`, which must be one
    /// direction.
    pub fn set_room(&mut self, direction: Direction4, room: Option<RoomIndex>)
        requires
            is_direction_bit(direction@),
        ensures
            direction@ == NORTH_BIT ==> *final(self) == old(self).spec_with_north(room),
            direction@ == SOUTH_BIT ==> *final(self) == old(self).spec_with_south(room),
            direction@ == EAST_BIT ==> *final(self) == old(self).spec_with_east(room),
            direction@ == WEST_BIT ==> *final(self) == old(self).spec_with_west(room),
    {
        let bits = direction.bits();
        if bits == NORTH_BIT {
            self.set_north(room);
        } else if bits == SOUTH_BIT {
            self.set_south(room);
        } else if bits == EAST_BIT {
            self.set_east(room);
        } else {
            self.set_west(room);
        }
    }

    /// Sets the neighbor to the north.
    pub fn set_north(&mut self, room: Option<RoomIndex>)
        ensures
            *final(self) == old(self).spec_with_north(room),
    {
        self.north = room;
    }

    /// Sets the neighbor to the south.
    pub fn set_south(&mut self, room: Option<RoomIndex>)
        ensures
            *final(self) == old(self).spec_with_south(room),
    {
        self.south = room;
    }

    /// Sets the neighbor to the east.
    pub fn set_east(&mut self, room: Option<RoomIndex>)
        ensures
            *final(self) == old(self).spec_with_east(room),
    {
        self.east = room;
    }

    /// Sets the neighbor to the west.
    pub fn set_west(&mut self, room: Option<RoomIndex>)
        ensures
            *final(self) == old(self).spec_with_west(room),
    {
        self.west = room;
    }

    /// The neighbor to the north.
    pub fn north(&self) -> (r: Option<RoomIndex>)
        ensures
            r == self.spec_north(),
    {
        self.north
    }

    /// The neighbor to the east.
    pub fn east(&self) -> (r: Option<RoomIndex>)
        ensures
            r == self.spec_east(),
    {
        self.east
    }

    /// The neighbor to the south.
    pub fn south(&self) -> (r: Option<RoomIndex>)
        ensures
            r == self.spec_south(),
    {
        self.south
    }

    /// The neighbor to the west.
    pub fn west(&self) -> (r: Option<RoomIndex>)
        ensures
            r == self.spec_west(),
    {
        self.west
    }

    /// Whether a neighbor stands behind the side `direction`, which must be
    /// one direction.
    pub fn has_neighbor(&self, direction: Direction4) -> (r: bool)
        requires
            is_direction_bit(direction@),
        ensures
            r == self.spec_neighbor(direction@) is Some,
    {
        self.get_neighbor(direction).is_some()
    }

    /// Whether any side has a neighbor.
    pub fn has_neighbors(&self) -> (r: bool)
        ensures
            r == (self.spec_north() is Some || self.spec_south() is Some || self.spec_east() is Some
                || self.spec_west() is Some),
    {
        self.north.is_some() || self.south.is_some() || self.east.is_some() || self.west.is_some()
    }

    /// The neighbor behind the side `direction`, which must be one
    /// direction.
    pub fn get_neighbor(&self, direction: Direction4) -> (r: Option<RoomIndex>)
        requires
            is_direction_bit(direction@),
        ensures
            r == self.spec_neighbor(direction@),
    {
        let bits = direction.bits();
        if bits == NORTH_BIT {
            self.north
        } else if bits == SOUTH_BIT {
            self.south
        } else if bits == EAST_BIT {
            self.east
        } else {
            self.west
        }
    }

    /// The doors of this room: the sides with a neighbor.
    pub fn doors(&self) -> (r: Door4)
        ensures
            r@ == self.spec_doors(),
    {
        let n = if self.north.is_some() { Door4::north() } else { Door4::none() };
        let s = if self.south.is_some() { Door4::south() } else { Door4::none() };
        let e = if self.east.is_some() { Door4::east() } else { Door4::none() };
        let w = if self.west.is_some() { Door4::west() } else { Door4::none() };
        n.join(s).join(e).join(w)
    }

    /// The walls of this room: the sides without a neighbor.
    pub fn walls(&self) -> (r: Wall4)
        ensures
            r@ == complement_bits(self.spec_doors()),
    {
        self.doors().complement()
    }

    /// The index of this room.
    pub fn index(&self) -> (r: RoomIndex)
        ensures
            r == self.spec_index(),
    {
        self.index
    }

    /// Links each neighbor of this room in `list` back to it, from the
    /// opposite side, in the order north, south, east, west.
    pub fn propagate_index_to_neighbors(&self, list: &mut Room4List<Tag>)
        requires
            self.spec_north() matches Some(j) ==> j@ < old(list).rooms().len() && (old(
                list,
            ).rooms()[j@ as int].spec_south() matches Some(k) ==> k == self.spec_index()),
            self.spec_south() matches Some(j) ==> j@ < old(list).rooms().len() && (old(
                list,
            ).rooms()[j@ as int].spec_north() matches Some(k) ==> k == self.spec_index()),
            self.spec_east() matches Some(j) ==> j@ < old(list).rooms().len() && (old(
                list,
            ).rooms()[j@ as int].spec_west() matches Some(k) ==> k == self.spec_index()),
            self.spec_west() matches Some(j) ==> j@ < old(list).rooms().len() && (old(
                list,
            ).rooms()[j@ as int].spec_east() matches Some(k) ==> k == self.spec_index()),
        ensures
            final(list).rooms() == linked_back(
                old(list).rooms(),
                self.spec_index(),
                self.spec_north(),
                self.spec_south(),
                self.spec_east(),
                self.spec_west(),
            ),
    {
        if let Some(north) = self.north {
            let other = list.index_mut(north);
            ensure_index_matches_and_apply(self.index, &mut other.south);
        }
        if let Some(south) = self.south {
            let other = list.index_mut(south);
            ensure_index_matches_and_apply(self.index, &mut other.north);
        }
        if let Some(east) = self.east {
            let other = list.index_mut(east);
            ensure_index_matches_and_apply(self.index, &mut other.west);
        }
        if let Some(west) = self.west {
            let other = list.index_mut(west);
            ensure_index_matches_and_apply(self.index, &mut other.east);
        }
    }
}

/// Points `existing_value` at `self_index`; it must be free or point there
/// already.
fn ensure_index_matches_and_apply(self_index: RoomIndex, existing_value: &mut Option<RoomIndex>)
    requires
        *old(existing_value) matches Some(k) ==> k == self_index,
    ensures
        *final(existing_value) == Some(self_index),
{
    *existing_value = Some(self_index);
}

} // verus!
