use amaze::Direction4;

#[test]
fn default_is_none() {
    assert_eq!(Direction4::default(), Direction4::none());
    assert!(Direction4::default().is_none());
    assert_eq!(Direction4::default().bits(), 0);
}

#[test]
fn all_contains_all_directions() {
    assert!(Direction4::all().contains(Direction4::north()));
    assert!(Direction4::all().contains(Direction4::south()));
    assert!(Direction4::all().contains(Direction4::east()));
    assert!(Direction4::all().contains(Direction4::west()));

    assert!(Direction4::all().contains(Direction4::none()));
    assert!(Direction4::all().contains(Direction4::all()));
    assert!(Direction4::all().is_all());

    assert_eq!(Direction4::all().bits(), 0b1111);
}

#[test]
fn any_direction_is_not_none() {
    assert!(!Direction4::north().is_none());
    assert!(!Direction4::south().is_none());
    assert!(!Direction4::east().is_none());
    assert!(!Direction4::west().is_none());
}

#[test]
fn all_directions_is_all() {
    assert!(Direction4::all().is_all());
}

#[test]
fn any_direction_is_not_all() {
    assert!(!Direction4::north().is_all());
    assert!(!Direction4::south().is_all());
    assert!(!Direction4::east().is_all());
    assert!(!Direction4::west().is_all());
    assert!(!Direction4::none().is_all());
}

#[test]
fn add_combines_directions() {
    let direction = Direction4::north() + Direction4::south();
    assert!(direction.contains(Direction4::north()));
    assert!(direction.contains(Direction4::south()));
    assert!(!direction.contains(Direction4::east()));
    assert!(!direction.contains(Direction4::west()));
}

#[test]
fn sub_removes_directions() {
    let direction = Direction4::all() - Direction4::east() - Direction4::west();
    assert!(direction.contains(Direction4::north()));
    assert!(direction.contains(Direction4::south()));
    assert!(!direction.contains(Direction4::east()));
    assert!(!direction.contains(Direction4::west()));
}

#[test]
fn include_combines_directions() {
    let mut direction = Direction4::none();
    direction
        .insert(Direction4::north())
        .insert(Direction4::south());
    assert_eq!(direction, Direction4::north().join(Direction4::south()));
}

#[test]
fn add_assign_combines_directions() {
    let mut direction = Direction4::none();
    direction.insert(Direction4::north());
    direction.insert(Direction4::south());
    assert!(direction.contains(Direction4::north()));
    assert!(direction.contains(Direction4::south()));
    assert!(!direction.contains(Direction4::east()));
    assert!(!direction.contains(Direction4::west()));
}

#[test]
fn sub_assign_removes_directions() {
    let mut direction = Direction4::all();
    direction.remove(Direction4::east());
    direction.remove(Direction4::west());
    assert!(direction.contains(Direction4::north()));
    assert!(direction.contains(Direction4::south()));
    assert!(!direction.contains(Direction4::east()));
    assert!(!direction.contains(Direction4::west()));
}

#[test]
fn remove_removes_directions() {
    let mut direction = Direction4::all();
    direction.remove(Direction4::east()).remove(Direction4::west());
    assert_eq!(direction, Direction4::north().join(Direction4::south()));
}

#[test]
fn into_iter_for_all_enumerates_all() {
    let dirs = Direction4::all().directions();
    assert!(dirs.contains(&Direction4::north()));
    assert!(dirs.contains(&Direction4::south()));
    assert!(dirs.contains(&Direction4::east()));
    assert!(dirs.contains(&Direction4::west()));
}

#[test]
fn into_iter_for_combination_enumerates_contained() {
    let dirs = Direction4::north().join(Direction4::west()).directions();
    assert!(dirs.contains(&Direction4::north()));
    assert!(dirs.contains(&Direction4::west()));
    assert!(!dirs.contains(&Direction4::south()));
    assert!(!dirs.contains(&Direction4::east()));
}

#[test]
fn debug_lists_directions() {
    assert_eq!(Direction4::none().describe(), "0b0000 (none)");
    assert_eq!(Direction4::all().describe(), "0b1111 (NSEW)");
    assert_eq!(Direction4::north().describe(), "0b0001 (N)");
    assert_eq!(Direction4::south().describe(), "0b0010 (S)");
    assert_eq!(Direction4::east().describe(), "0b0100 (E)");
    assert_eq!(Direction4::west().describe(), "0b1000 (W)");

    assert_eq!(
        Direction4::north().join(Direction4::east()).describe(),
        "0b0101 (NE)"
    );
    assert_eq!(
        Direction4::north()
            .join(Direction4::east())
            .join(Direction4::west())
            .describe(),
        "0b1101 (NEW)"
    );
}

#[test]
fn not_all_is_none() {
    assert_eq!(Direction4::all().complement(), Direction4::none());
}

#[test]
fn not_inverts_selection() {
    assert_eq!(
        Direction4::north().join(Direction4::south()).complement(),
        Direction4::west().join(Direction4::east())
    );
}

#[test]
fn is_trivial_work() {
    assert!(Direction4::north().is_trivial());
    assert!(Direction4::south().is_trivial());
    assert!(Direction4::east().is_trivial());
    assert!(Direction4::west().is_trivial());

    assert!(!Direction4::none().is_trivial());
    assert!(!Direction4::all().is_trivial());
    assert!(!Direction4::north().join(Direction4::east()).is_trivial());
}

#[test]
fn directions_come_in_fixed_order() {
    let dirs = Direction4::all().directions();
    assert_eq!(
        dirs,
        vec![
            Direction4::north(),
            Direction4::south(),
            Direction4::east(),
            Direction4::west()
        ]
    );
    assert_eq!(Direction4::all().directions(), dirs);
    assert!(Direction4::none().directions().is_empty());
}

#[test]
fn from_bits_masks_to_four_bits() {
    assert_eq!(Direction4::from_bits(0xF5).bits(), 0b0101);
    assert_eq!(Direction4::from_bits(0b1010), Direction4::south().join(Direction4::west()));
}

#[test]
fn complement_law_on_every_pattern() {
    for b in 0u8..16 {
        let walls = Direction4::from_bits(b);
        let doors = walls.complement();
        assert!(walls.join(doors).is_all());
        assert_eq!(walls.bits() & doors.bits(), 0);
    }
}

#[test]
fn iterator_walks_contained_directions() {
    let mut it = Direction4::south().join(Direction4::west()).into_iter();
    assert_eq!(it.next(), Some(Direction4::south()));
    assert_eq!(it.next(), Some(Direction4::west()));
    assert_eq!(it.next(), None);
    assert_eq!(it.next(), None);
    let mut again = Direction4::south().join(Direction4::west()).into_iter();
    assert_eq!(again.next(), Some(Direction4::south()));
}
