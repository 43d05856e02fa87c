use crate::room4::Room4;
use vstd::prelude::*;

verus! {

/// The position of a room in a [`Room4List`].
#[derive(Clone, Copy, PartialEq, Eq, Structural, PartialOrd, Ord, Hash, Debug)]
pub struct RoomIndex {
    position: usize,
}

impl View for RoomIndex {
    type V = nat;

    closed spec fn view(&self) -> nat {
        self.position as nat
    }
}

impl RoomIndex {
    /// The index of the room at `value`; none for `usize::MAX`, which no
    /// list can reach.
    pub fn from(value: usize) -> (r: Option<RoomIndex>)
        ensures
            r is None <==> value == usize::MAX,
            r matches Some(i) ==> i@ == value,
    {
        if value == usize::MAX {
            return None;
        }
        Some(RoomIndex { position: value })
    }

    /// The position this index names.
    pub fn position(&self) -> (r: usize)
        ensures
            r == self@,
    {
        self.position
    }
}

/// An arena of four-sided rooms, each addressed by its [`RoomIndex`].
#[derive(Debug)]
pub struct Room4List<Tag> {
    rooms: Vec<Room4<Tag>>,
}

impl<Tag> Room4List<Tag> {
    /// The rooms, in the order they were added.
    pub closed spec fn rooms(&self) -> Seq<Room4<Tag>> {
        self.rooms@
    }

    /// Every room sits at the position its index names, and each neighbor
    /// link is a room of the list that links back from the opposite side.
    pub open spec fn links_consistent(&self) -> bool {
        rooms_consistent(self.rooms())
    }

    /// An empty list.
    pub fn new() -> (r: Self)
        ensures
            r.rooms().len() == 0,
    {
        Room4List { rooms: Vec::new() }
    }

    /// Adds a room with the tag `tag` and no neighbors, and returns its
    /// index.
    pub fn push_default(&mut self, tag: Tag) -> (r: RoomIndex)
        requires
            old(self).rooms().len() < usize::MAX,
        ensures
            r@ == old(self).rooms().len(),
            final(self).rooms() == old(self).rooms().push(Room4::spec_new(r, tag)),
    {
        let r = self.push_new(tag, None, None, None, None);
        proof {
            assert(Room4::spec_new(r, tag).spec_north() is None);
        }
        r
    }

    /// Adds a room with the tag `tag` and the given neighbors, links each
    /// neighbor back to it from the opposite side, and returns its index.
    /// A neighbor must be a room of the list whose opposite side is free.
    pub fn push_new(
        &mut self,
        tag: Tag,
        north: Option<RoomIndex>,
        south: Option<RoomIndex>,
        east: Option<RoomIndex>,
        west: Option<RoomIndex>,
    ) -> (r: RoomIndex)
        requires
            old(self).rooms().len() < usize::MAX,
            north matches Some(j) ==> j@ < old(self).rooms().len() && free_for(
                old(self).rooms()[j@ as int].spec_south(),
                old(self).rooms().len(),
            ),
            south matches Some(j) ==> j@ < old(self).rooms().len() && free_for(
                old(self).rooms()[j@ as int].spec_north(),
                old(self).rooms().len(),
            ),
            east matches Some(j) ==> j@ < old(self).rooms().len() && free_for(
                old(self).rooms()[j@ as int].spec_west(),
                old(self).rooms().len(),
            ),
            west matches Some(j) ==> j@ < old(self).rooms().len() && free_for(
                old(self).rooms()[j@ as int].spec_east(),
                old(self).rooms().len(),
            ),
        ensures
            r@ == old(self).rooms().len(),
            final(self).rooms().len() == old(self).rooms().len() + 1,
            final(self).rooms().last() == Room4::spec_new(r, tag).spec_with_links(
                north,
                south,
                east,
                west,
            ),
            final(self).rooms().drop_last() == linked_back(
                old(self).rooms(),
                r,
                north,
                south,
                east,
                west,
            ),
            old(self).links_consistent() ==> final(self).links_consistent(),
    {
        let index = RoomIndex { position: self.rooms.len() };
        let mut room = Room4::new_empty(index, tag);
        room.set_north(north);
        room.set_south(south);
        room.set_east(east);
        room.set_west(west);
        if room.has_neighbors() {
            room.propagate_index_to_neighbors(self);
        }
        let ghost linked = self.rooms@;
        self.rooms.push(room);
        proof {
            assert(self.rooms@.drop_last() =~= linked);
            if old(self).links_consistent() {
                lemma_push_keeps_links(old(self).rooms(), index, tag, north, south, east, west);
                assert(self.rooms@ =~= linked.push(room));
            }
        }
        index
    }

    /// The number of rooms.
    pub fn len(&self) -> (r: usize)
        ensures
            r == self.rooms().len(),
    {
        self.rooms.len()
    }

    /// Whether the list holds no room.
    pub fn is_empty(&self) -> (r: bool)
        ensures
            r == (self.rooms().len() == 0),
    {
        self.rooms.len() == 0
    }

    /// The room at `index`, or none past the end.
    pub fn get(&self, index: RoomIndex) -> (r: Option<&Room4<Tag>>)
        ensures
            r is Some <==> index@ < self.rooms().len(),
            r matches Some(room) ==> *room == self.rooms()[index@ as int],
    {
        if index.position < self.rooms.len() {
            Some(&self.rooms[index.position])
        } else {
            None
        }
    }

    /// The room at `index`, for change in place, or none past the end.
    pub fn get_mut(&mut self, index: RoomIndex) -> (r: Option<&mut Room4<Tag>>)
        ensures
            r is Some <==> index@ < old(self).rooms().len(),
            r matches Some(room) ==> {
                &&& *room == old(self).rooms()[index@ as int]
                &&& final(self).rooms() == old(self).rooms().update(index@ as int, *final(room))
            },
            r is None ==> *final(self) == *old(self),
    {
        if index.position < self.rooms.len() {
            Some(&mut self.rooms[index.position])
        } else {
            None
        }
    }

    /// The room at `index`, which must be in the list.
    pub fn index(&self, index: RoomIndex) -> (r: &Room4<Tag>)
        requires
            index@ < self.rooms().len(),
        ensures
            *r == self.rooms()[index@ as int],
    {
        &self.rooms[index.position]
    }

    /// The room at `index`, for change in place; it must be in the list.
    pub fn index_mut(&mut self, index: RoomIndex) -> (r: &mut Room4<Tag>)
        requires
            index@ < old(self).rooms().len(),
        ensures
            *r == old(self).rooms()[index@ as int],
            final(self).rooms() == old(self).rooms().update(index@ as int, *final(r)),
    {
        &mut self.rooms[index.position]
    }

    /// The room at `position`, which must be in the list.
    pub fn index_at(&self, position: usize) -> (r: &Room4<Tag>)
        requires
            position < self.rooms().len(),
        ensures
            *r == self.rooms()[position as int],
    {
        &self.rooms[position]
    }

    /// The room at `position`, for change in place; it must be in the list.
    pub fn index_at_mut(&mut self, position: usize) -> (r: &mut Room4<Tag>)
        requires
            position < old(self).rooms().len(),
        ensures
            *r == old(self).rooms()[position as int],
            final(self).rooms() == old(self).rooms().update(position as int, *final(r)),
    {
        &mut self.rooms[position]
    }

    /// Gives up the rooms, handing them out from the last added.
    pub fn into_iter(self) -> (r: Room4ListIntoIterator<Tag>)
        ensures
            r.remaining() == self.rooms(),
    {
        Room4ListIntoIterator { list: self.rooms }
    }
}

/// The rooms of a list, handed out one at a time from the last added.
pub struct Room4ListIntoIterator<Tag> {
    list: Vec<Room4<Tag>>,
}

impl<Tag> Room4ListIntoIterator<Tag> {
    /// The rooms still to come, the next one last.
    pub closed spec fn remaining(&self) -> Seq<Room4<Tag>> {
        self.list@
    }

    /// The next room, or none when all have come.
    pub fn next(&mut self) -> (r: Option<Room4<Tag>>)
        ensures
            old(self).remaining().len() == 0 ==> r is None && final(self).remaining()
                == old(self).remaining(),
            old(self).remaining().len() > 0 ==> r == Some(old(self).remaining().last())
                && final(self).remaining() == old(self).remaining().drop_last(),
    {
        self.list.pop()
    }
}

impl<Tag> Default for Room4List<Tag> {
    /// An empty list.
    fn default() -> (r: Self)
        ensures
            r.rooms().len() == 0,
    {
        Room4List { rooms: Vec::new() }
    }
}

/// Whether each room of `rooms` sits at the position its index names and
/// each neighbor link is a room of `rooms` that links back.
pub open spec fn rooms_consistent<Tag>(rooms: Seq<Room4<Tag>>) -> bool {
    forall|i: int|
        0 <= i < rooms.len() ==> {
            let r = #[trigger] rooms[i];
            &&& r.spec_index()@ == i
            &&& r.spec_north() matches Some(j) ==> j@ < rooms.len() && rooms[j@ as int].spec_south()
                == Some(r.spec_index())
            &&& r.spec_south() matches Some(j) ==> j@ < rooms.len() && rooms[j@ as int].spec_north()
                == Some(r.spec_index())
            &&& r.spec_east() matches Some(j) ==> j@ < rooms.len() && rooms[j@ as int].spec_west()
                == Some(r.spec_index())
            &&& r.spec_west() matches Some(j) ==> j@ < rooms.len() && rooms[j@ as int].spec_east()
                == Some(r.spec_index())
        }
}

/// Whether a side whose link is `link` may be linked to the room at
/// position `me`: it is free or already links there.
pub open spec fn free_for(link: Option<RoomIndex>, me: nat) -> bool {
    link matches Some(k) ==> k@ == me
}

/// Whether `link` names the room at position `i`.
pub open spec fn names(link: Option<RoomIndex>, i: int) -> bool {
    link matches Some(j) && j@ == i
}

/// Linking a new room back from its free neighbors keeps the links of a
/// consistent list consistent.
#[verifier::rlimit(100)]
proof fn lemma_push_keeps_links<Tag>(
    rooms: Seq<Room4<Tag>>,
    me: RoomIndex,
    tag: Tag,
    north: Option<RoomIndex>,
    south: Option<RoomIndex>,
    east: Option<RoomIndex>,
    west: Option<RoomIndex>,
)
    requires
        rooms_consistent(rooms),
        me@ == rooms.len(),
        north matches Some(j) ==> j@ < rooms.len() && free_for(rooms[j@ as int].spec_south(), rooms.len()),
        south matches Some(j) ==> j@ < rooms.len() && free_for(rooms[j@ as int].spec_north(), rooms.len()),
        east matches Some(j) ==> j@ < rooms.len() && free_for(rooms[j@ as int].spec_west(), rooms.len()),
        west matches Some(j) ==> j@ < rooms.len() && free_for(rooms[j@ as int].spec_east(), rooms.len()),
    ensures
        rooms_consistent(
            linked_back(rooms, me, north, south, east, west).push(
                Room4::spec_new(me, tag).spec_with_links(north, south, east, west),
            ),
        ),
{
    let n = rooms.len() as int;
    let linked = linked_back(rooms, me, north, south, east, west);
    let all = linked.push(Room4::spec_new(me, tag).spec_with_links(north, south, east, west));
    assert forall|i: int| 0 <= i < n implies {
        let r = #[trigger] linked[i];
        &&& r.index == rooms[i].index
        &&& r.south == if names(north, i) { Some(me) } else { rooms[i].south }
        &&& r.north == if names(south, i) { Some(me) } else { rooms[i].north }
        &&& r.west == if names(east, i) { Some(me) } else { rooms[i].west }
        &&& r.east == if names(west, i) { Some(me) } else { rooms[i].east }
    } by {
    }
    assert(linked.len() == n);
    assert forall|i: int| 0 <= i < all.len() implies {
        let r = #[trigger] all[i];
        &&& r.spec_index()@ == i
        &&& r.spec_north() matches Some(j) ==> j@ < all.len() && all[j@ as int].spec_south()
            == Some(r.spec_index())
        &&& r.spec_south() matches Some(j) ==> j@ < all.len() && all[j@ as int].spec_north()
            == Some(r.spec_index())
        &&& r.spec_east() matches Some(j) ==> j@ < all.len() && all[j@ as int].spec_west()
            == Some(r.spec_index())
        &&& r.spec_west() matches Some(j) ==> j@ < all.len() && all[j@ as int].spec_east()
            == Some(r.spec_index())
    } by {
        if i < n {
            assert(all[i] == linked[i]);
            let old_r = rooms[i];
            if let Some(j) = old_r.north {
                assert(all[j@ as int] == linked[j@ as int]);
                assert(rooms[j@ as int].south == Some(old_r.index));
            }
            if let Some(j) = old_r.south {
                assert(all[j@ as int] == linked[j@ as int]);
                assert(rooms[j@ as int].north == Some(old_r.index));
            }
            if let Some(j) = old_r.east {
                assert(all[j@ as int] == linked[j@ as int]);
                assert(rooms[j@ as int].west == Some(old_r.index));
            }
            if let Some(j) = old_r.west {
                assert(all[j@ as int] == linked[j@ as int]);
                assert(rooms[j@ as int].east == Some(old_r.index));
            }
        } else {
            if let Some(j) = north {
                assert(all[j@ as int] == linked[j@ as int]);
            }
            if let Some(j) = south {
                assert(all[j@ as int] == linked[j@ as int]);
            }
            if let Some(j) = east {
                assert(all[j@ as int] == linked[j@ as int]);
            }
            if let Some(j) = west {
                assert(all[j@ as int] == linked[j@ as int]);
            }
        }
    }
}

/// The rooms `rooms` after the room `me` is linked back from each of its
/// given neighbors, from the opposite side, in the order north, south,
/// east, west.
pub open spec fn linked_back<Tag>(
    rooms: Seq<Room4<Tag>>,
    me: RoomIndex,
    north: Option<RoomIndex>,
    south: Option<RoomIndex>,
    east: Option<RoomIndex>,
    west: Option<RoomIndex>,
) -> Seq<Room4<Tag>> {
    let a = match north {
        Some(j) => rooms.update(j@ as int, rooms[j@ as int].spec_with_south(Some(me))),
        None => rooms,
    };
    let b = match south {
        Some(j) => a.update(j@ as int, a[j@ as int].spec_with_north(Some(me))),
        None => a,
    };
    let c = match east {
        Some(j) => b.update(j@ as int, b[j@ as int].spec_with_west(Some(me))),
        None => b,
    };
    match west {
        Some(j) => c.update(j@ as int, c[j@ as int].spec_with_east(Some(me))),
        None => c,
    }
}

} // verus!
