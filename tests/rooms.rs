use amaze::room4::{Door4, Room4, Wall4};
use amaze::room4_list::{Room4List, RoomIndex};
use amaze::Direction4;

#[test]
fn empty_room_has_no_neighbors() {
    let index = RoomIndex::from(0).unwrap();
    let empty = Room4::new_empty(index, 0);
    assert!(empty.north().is_none());
    assert!(empty.south().is_none());
    assert!(empty.east().is_none());
    assert!(empty.west().is_none());
}

#[test]
fn room4_it_works() {
    let mut list = Room4List::default();
    let n = list.push_default(0);
    let s = list.push_default(1);
    let e = list.push_default(2);
    let w = list.push_default(3);

    let c = list.push_new(42, Some(n), Some(s), Some(e), Some(w));

    let center = list.index(c);
    assert_eq!(center.index(), c);
    assert_eq!(center.north(), Some(n));
    assert_eq!(center.south(), Some(s));
    assert_eq!(center.east(), Some(e));
    assert_eq!(center.west(), Some(w));
    assert_eq!(center.doors(), Door4::all());
    assert_eq!(center.walls(), Wall4::none());

    let north = list.index(n);
    assert_eq!(north.index(), n);
    assert_eq!(north.north(), None);
    assert_eq!(north.south(), Some(c));
    assert_eq!(north.east(), None);
    assert_eq!(north.west(), None);
    assert_eq!(north.doors(), Door4::south());
    assert_eq!(north.walls(), Wall4::north().join(Wall4::east()).join(Wall4::west()));

    let south = list.index(s);
    assert_eq!(south.index(), s);
    assert_eq!(south.north(), Some(c));
    assert_eq!(south.south(), None);
    assert_eq!(south.east(), None);
    assert_eq!(south.west(), None);
    assert_eq!(south.doors(), Door4::north());
    assert_eq!(south.walls(), Wall4::south().join(Wall4::east()).join(Wall4::west()));

    let east = list.index(e);
    assert_eq!(east.index(), e);
    assert_eq!(east.north(), None);
    assert_eq!(east.south(), None);
    assert_eq!(east.east(), None);
    assert_eq!(east.west(), Some(c));
    assert_eq!(east.doors(), Door4::west());
    assert_eq!(east.walls(), Wall4::north().join(Wall4::south()).join(Wall4::east()));

    let west = list.index(w);
    assert_eq!(west.index(), w);
    assert_eq!(west.north(), None);
    assert_eq!(west.south(), None);
    assert_eq!(west.east(), Some(c));
    assert_eq!(west.west(), None);
    assert_eq!(west.doors(), Door4::east());
    assert_eq!(west.walls(), Wall4::north().join(Wall4::south()).join(Wall4::west()));
}

#[test]
fn get_returns_some() {
    let mut list = Room4List::default();
    let idx_a = list.push_default("a");
    let idx_b = list.push_default("b");
    assert_eq!(list.get(idx_a).unwrap().tag, "a");
    assert_eq!(list.get(idx_b).unwrap().tag, "b");
}

#[test]
fn index_returns_some() {
    let mut list = Room4List::default();
    let idx_a = list.push_default("a");
    let idx_b = list.push_default("b");
    assert_ne!(idx_a, idx_b);

    assert_eq!(list.index(idx_a).tag, "a");
    assert_eq!(list.index(idx_b).tag, "b");

    assert_eq!(list.index_at(0).tag, "a");
    assert_eq!(list.index_at(1).tag, "b");
}

#[test]
fn get_mut_returns_some() {
    let mut list = Room4List::default();
    let idx_a = list.push_default("a");
    let idx_b = list.push_default("b");
    assert_eq!(list.get_mut(idx_a).unwrap().tag, "a");
    assert_eq!(list.get_mut(idx_b).unwrap().tag, "b");
}

#[test]
fn index_mut_returns_some() {
    let mut list = Room4List::default();
    let idx_a = list.push_default("a");
    let idx_b = list.push_default("b");

    let room_a = list.index_mut(idx_a);
    assert_eq!(room_a.tag, "a");
    let room_b = list.index_mut(idx_b);
    assert_eq!(room_b.tag, "b");

    let room_a = list.index_at_mut(0);
    assert_eq!(room_a.tag, "a");
    let room_b = list.index_at_mut(1);
    assert_eq!(room_b.tag, "b");
}

#[test]
fn get_with_invalid_index_returns_none() {
    let mut list = Room4List::default();
    let _ = list.push_default("a");

    let invalid_idx = RoomIndex::from(1).unwrap();
    assert!(list.get(invalid_idx).is_none());
}

#[test]
fn room_index_rejects_max() {
    assert!(RoomIndex::from(usize::MAX).is_none());
    assert_eq!(RoomIndex::from(7).unwrap().position(), 7);
}

#[test]
fn neighbors_by_direction() {
    let mut list: Room4List<u8> = Room4List::new();
    let a = list.push_default(1);
    let b = list.push_new(2, None, None, None, Some(a));
    let room = list.get_mut(b).unwrap();
    assert!(room.has_neighbor(Direction4::west()));
    assert!(!room.has_neighbor(Direction4::north()));
    assert_eq!(room.get_neighbor(Direction4::west()), Some(a));
    room.set_room(Direction4::north(), Some(a));
    assert_eq!(room.north(), Some(a));
    assert!(room.has_neighbors());
    assert_eq!(list.index(a).east(), Some(b));
    assert_eq!(list.len(), 2);
    assert!(!list.is_empty());
    let mut rooms = list.into_iter();
    assert_eq!(rooms.next().unwrap().tag, 2);
    assert_eq!(rooms.next().unwrap().tag, 1);
    assert!(rooms.next().is_none());
}
