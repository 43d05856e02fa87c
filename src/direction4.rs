use vstd::prelude::*;

verus! {

/// A set of the four cardinal directions of a Von Neumann neighborhood,
/// held as a 4-bit mask: north `0b0001`, south `0b0010`, east `0b0100`,
/// west `0b1000`.
#[derive(Clone, Copy, PartialEq, Eq, Structural, PartialOrd, Ord, Hash, Debug)]
pub struct Direction4 {
    bits: u8,
}

/// The bit of the north direction.
pub const NORTH_BIT: u8 = 0b0001;

/// The bit of the south direction.
pub const SOUTH_BIT: u8 = 0b0010;

/// The bit of the east direction.
pub const EAST_BIT: u8 = 0b0100;

/// The bit of the west direction.
pub const WEST_BIT: u8 = 0b1000;

/// The mask of all four directions.
pub const ALL_BITS: u8 = 0b1111;

/// Whether `b` is the bit of exactly one direction.
pub open spec fn is_direction_bit(b: u8) -> bool {
    b == NORTH_BIT || b == SOUTH_BIT || b == EAST_BIT || b == WEST_BIT
}

/// The bit pattern that removing the directions `b` from `a` leaves.
pub open spec fn without_bits(a: u8, b: u8) -> u8 {
    a & !b & ALL_BITS
}

/// The bit pattern of the complement of `a` within the four directions.
pub open spec fn complement_bits(a: u8) -> u8 {
    !a & ALL_BITS
}

/// Whether the bit pattern `a` holds every direction of `b`.
pub open spec fn contains_bits(a: u8, b: u8) -> bool {
    a & b == b
}

impl View for Direction4 {
    type V = u8;

    closed spec fn view(&self) -> u8 {
        self.bits
    }
}

impl Direction4 {
    #[verifier::type_invariant]
    closed spec fn inv(self) -> bool {
        self.bits <= ALL_BITS
    }

    /// The north direction.
    pub fn north() -> (r: Self)
        ensures
            r@ == NORTH_BIT,
    {
        Direction4 { bits: NORTH_BIT }
    }

    /// The south direction.
    pub fn south() -> (r: Self)
        ensures
            r@ == SOUTH_BIT,
    {
        Direction4 { bits: SOUTH_BIT }
    }

    /// The east direction.
    pub fn east() -> (r: Self)
        ensures
            r@ == EAST_BIT,
    {
        Direction4 { bits: EAST_BIT }
    }

    /// The west direction.
    pub fn west() -> (r: Self)
        ensures
            r@ == WEST_BIT,
    {
        Direction4 { bits: WEST_BIT }
    }

    /// All four directions.
    pub fn all() -> (r: Self)
        ensures
            r@ == ALL_BITS,
    {
        Direction4 { bits: ALL_BITS }
    }

    /// No direction.
    pub fn none() -> (r: Self)
        ensures
            r@ == 0,
    {
        Direction4 { bits: 0 }
    }

    /// The set whose mask is the low four bits of `bits`.
    pub fn from_bits(bits: u8) -> (r: Self)
        ensures
            r@ == bits & ALL_BITS,
    {
        assert(bits & ALL_BITS <= ALL_BITS) by (bit_vector);
        Direction4 { bits: bits & ALL_BITS }
    }

    /// The mask of this set.
    pub fn bits(&self) -> (r: u8)
        ensures
            r == self@,
            r <= ALL_BITS,
    {
        proof {
            use_type_invariant(self);
        }
        self.bits
    }

    /// Tests whether this set holds every direction of `other`.
    pub fn contains(&self, other: Direction4) -> (r: bool)
        ensures
            r == contains_bits(self@, other@),
    {
        self.bits & other.bits == other.bits
    }

    /// Tests whether this set holds all four directions.
    pub fn is_all(&self) -> (r: bool)
        ensures
            r == (self@ == ALL_BITS),
    {
        self.bits == ALL_BITS
    }

    /// Tests whether this set holds no direction.
    pub fn is_none(&self) -> (r: bool)
        ensures
            r == (self@ == 0),
    {
        self.bits == 0
    }

    /// Tests whether this set holds exactly one direction.
    pub fn is_trivial(&self) -> (r: bool)
        ensures
            r == is_direction_bit(self@),
    {
        if self.bits == NORTH_BIT {
            true
        } else if self.bits == SOUTH_BIT {
            true
        } else if self.bits == EAST_BIT {
            true
        } else {
            self.bits == WEST_BIT
        }
    }

    /// The union of two sets.
    pub fn join(self, rhs: Direction4) -> (r: Direction4)
        ensures
            r@ == self@ | rhs@,
    {
        proof {
            use_type_invariant(self);
            use_type_invariant(rhs);
            let (a, b) = (self.bits, rhs.bits);
            assert(a <= 15 && b <= 15 ==> a | b <= 15) by (bit_vector);
        }
        Direction4 { bits: self.bits | rhs.bits }
    }

    /// The directions of this set that `rhs` does not hold.
    pub fn without(self, rhs: Direction4) -> (r: Direction4)
        ensures
            r@ == without_bits(self@, rhs@),
    {
        let (a, b) = (self.bits, rhs.bits);
        let bits = a & !b & ALL_BITS;
        assert(bits <= ALL_BITS) by (bit_vector)
            requires
                bits == a & !b & ALL_BITS,
        ;
        Direction4 { bits }
    }

    /// The directions that this set does not hold.
    pub fn complement(self) -> (r: Direction4)
        ensures
            r@ == complement_bits(self@),
    {
        let a = self.bits;
        let bits = !a & ALL_BITS;
        assert(bits <= ALL_BITS) by (bit_vector)
            requires
                bits == !a & ALL_BITS,
        ;
        Direction4 { bits }
    }

    /// Adds the directions of `rhs` to this set in place.
    pub fn insert(&mut self, rhs: Direction4) -> (r: &mut Direction4)
        ensures
            r@ == old(self)@ | rhs@,
            *final(self) == *final(r),
    {
        *self = self.join(rhs);
        self
    }

    /// Removes the directions of `rhs` from this set in place.
    pub fn remove(&mut self, rhs: Direction4) -> (r: &mut Direction4)
        ensures
            r@ == without_bits(old(self)@, rhs@),
            *final(self) == *final(r),
    {
        *self = self.without(rhs);
        self
    }

    /// The directions of this set, one by one, in the order north, south,
    /// east, west.
    pub fn directions(&self) -> (r: Vec<Direction4>)
        ensures
            r@.map_values(|d: Direction4| d@) == directions_of(self@),
    {
        let mut out: Vec<Direction4> = Vec::new();
        let bits: [u8; 4] = [NORTH_BIT, SOUTH_BIT, EAST_BIT, WEST_BIT];
        let mut step: usize = 0;
        while step < 4
            invariant
                step <= 4,
                bits@ == seq![NORTH_BIT, SOUTH_BIT, EAST_BIT, WEST_BIT],
                out@.map_values(|d: Direction4| d@) == directions_upto(self@, step as int),
            decreases 4 - step,
        {
            let current = Direction4 { bits: bits[step] };
            if self.contains(current) {
                out.push(current);
                assert(out@.map_values(|d: Direction4| d@) =~= directions_upto(
                    self@,
                    step as int,
                ).push(bits@[step as int]));
            }
            step = step + 1;
        }
        out
    }

    /// A walk over the directions of this set, in the order north, south,
    /// east, west.
    pub fn into_iter(self) -> (r: Direction4Iterator)
        ensures
            r.remaining() == directions_of(self@),
    {
        proof {
            lemma_directions_from_start(self@);
        }
        Direction4Iterator { direction: self, step: 0 }
    }

    /// A text that shows the mask in binary and the letters of its
    /// directions: `0b0101 (NE)`, or `0b0000 (none)` for the empty set.
    pub fn describe(&self) -> (r: String)
        ensures
            r@ == describe_bits(self@),
    {
        let a = self.bits;
        let mut out = String::from_str("0b");
        push_binary_digit(&mut out, a, WEST_BIT);
        push_binary_digit(&mut out, a, EAST_BIT);
        push_binary_digit(&mut out, a, SOUTH_BIT);
        push_binary_digit(&mut out, a, NORTH_BIT);
        let ghost digits = out@;
        if a == 0 {
            out.append(" (none)");
        } else {
            out.append(" (");
            if a & NORTH_BIT == NORTH_BIT {
                out.append("N");
            }
            if a & SOUTH_BIT == SOUTH_BIT {
                out.append("S");
            }
            if a & EAST_BIT == EAST_BIT {
                out.append("E");
            }
            if a & WEST_BIT == WEST_BIT {
                out.append("W");
            }
            out.append(")");
        }
        proof {
            reveal_strlit("0b");
            reveal_strlit(" (none)");
            reveal_strlit(" (");
            reveal_strlit("N");
            reveal_strlit("S");
            reveal_strlit("E");
            reveal_strlit("W");
            reveal_strlit(")");
            assert(out@ =~= describe_bits(a));
        }
        out
    }
}

/// Appends `1` when `a` holds the bit `place`, else `0`.
fn push_binary_digit(out: &mut String, a: u8, place: u8)
    ensures
        final(out)@ == old(out)@.push(binary_digit(a, place)),
{
    if a & place == place {
        out.append("1");
    } else {
        out.append("0");
    }
    proof {
        reveal_strlit("1");
        reveal_strlit("0");
    }
}

/// Removing one direction clears that direction's bit, keeps the other
/// three, and is idempotent.
pub proof fn lemma_without_direction(a: u8, b: u8)
    requires
        a <= ALL_BITS,
        is_direction_bit(b),
    ensures
        without_bits(a, b) <= ALL_BITS,
        !contains_bits(without_bits(a, b), b),
        b != NORTH_BIT ==> (contains_bits(without_bits(a, b), NORTH_BIT) == contains_bits(a, NORTH_BIT)),
        b != SOUTH_BIT ==> (contains_bits(without_bits(a, b), SOUTH_BIT) == contains_bits(a, SOUTH_BIT)),
        b != EAST_BIT ==> (contains_bits(without_bits(a, b), EAST_BIT) == contains_bits(a, EAST_BIT)),
        b != WEST_BIT ==> (contains_bits(without_bits(a, b), WEST_BIT) == contains_bits(a, WEST_BIT)),
        without_bits(without_bits(a, b), b) == without_bits(a, b),
        !contains_bits(a, b) ==> without_bits(a, b) == a,
{
    assert(a <= 15 && (b == 1 || b == 2 || b == 4 || b == 8) ==> {
        &&& (a & !b & 15) <= 15
        &&& (a & !b & 15) & b != b
        &&& (b != 1 ==> (((a & !b & 15) & 1 == 1) == (a & 1 == 1)))
        &&& (b != 2 ==> (((a & !b & 15) & 2 == 2) == (a & 2 == 2)))
        &&& (b != 4 ==> (((a & !b & 15) & 4 == 4) == (a & 4 == 4)))
        &&& (b != 8 ==> (((a & !b & 15) & 8 == 8) == (a & 8 == 8)))
        &&& ((a & !b & 15) & !b & 15) == (a & !b & 15)
        &&& (a & b != b ==> (a & !b & 15) == a)
    }) by (bit_vector);
}

/// The full set holds every direction; the empty set holds none.
pub proof fn lemma_all_and_none(b: u8)
    requires
        is_direction_bit(b),
    ensures
        contains_bits(ALL_BITS, b),
        !contains_bits(0, b),
{
    assert((b == 1 || b == 2 || b == 4 || b == 8) ==> (15u8 & b == b && 0u8 & b != b)) by (bit_vector);
}

/// A set and its complement are disjoint and together hold all four
/// directions.
pub proof fn lemma_complement(a: u8)
    requires
        a <= ALL_BITS,
    ensures
        a | complement_bits(a) == ALL_BITS,
        a & complement_bits(a) == 0,
        complement_bits(complement_bits(a)) == a,
{
    assert(a <= 15 ==> ((a | (!a & 15)) == 15 && (a & (!a & 15)) == 0 && (!(!a & 15) & 15) == a))
        by (bit_vector);
}

/// A walk over the directions of a set, one at a time.
pub struct Direction4Iterator {
    direction: Direction4,
    step: u8,
}

/// The direction bits of `a` from position `step` on, among north, south,
/// east and west in that order.
pub open spec fn directions_from(a: u8, step: int) -> Seq<u8>
    decreases 4 - step,
{
    if step >= 4 {
        seq![]
    } else {
        let b = seq![NORTH_BIT, SOUTH_BIT, EAST_BIT, WEST_BIT][step];
        let rest = directions_from(a, step + 1);
        if contains_bits(a, b) {
            seq![b] + rest
        } else {
            rest
        }
    }
}

impl Direction4Iterator {
    /// The directions still to come.
    pub closed spec fn remaining(&self) -> Seq<u8> {
        directions_from(self.direction@, self.step as int)
    }

    /// The next direction of the set, or none when all have come.
    pub fn next(&mut self) -> (r: Option<Direction4>)
        ensures
            old(self).remaining().len() == 0 ==> r is None && final(self).remaining().len() == 0,
            old(self).remaining().len() > 0 ==> (r matches Some(d) && d@ == old(self).remaining()[0]
                && final(self).remaining() == old(self).remaining().drop_first()),
    {
        let bits: [u8; 4] = [NORTH_BIT, SOUTH_BIT, EAST_BIT, WEST_BIT];
        while self.step < 4
            invariant
                bits@ == seq![NORTH_BIT, SOUTH_BIT, EAST_BIT, WEST_BIT],
                self.direction == old(self).direction,
                directions_from(self.direction@, self.step as int) == old(self).remaining(),
            decreases 4 - self.step,
        {
            let current = Direction4 { bits: bits[self.step as usize] };
            self.step = self.step + 1;
            if self.direction.contains(current) {
                return Some(current);
            }
        }
        None
    }
}

/// Counting from the start, the directions from position zero are all the
/// directions of the set.
pub proof fn lemma_directions_from_start(a: u8)
    ensures
        directions_from(a, 0) == directions_of(a),
{
    reveal_with_fuel(directions_from, 5);
    reveal_with_fuel(directions_upto, 5);
    assert(directions_from(a, 0) =~= directions_upto(a, 4));
}

impl core::ops::Add for Direction4 {
    type Output = Direction4;

    /// The union of two sets.
    fn add(self, rhs: Direction4) -> (r: Direction4)
        ensures
            r@ == self@ | rhs@,
    {
        self.join(rhs)
    }
}

impl vstd::std_specs::ops::AddSpecImpl for Direction4 {
    open spec fn obeys_add_spec() -> bool {
        true
    }

    open spec fn add_req(self, rhs: Direction4) -> bool {
        true
    }

    closed spec fn add_spec(self, rhs: Direction4) -> Direction4 {
        Direction4 { bits: self.bits | rhs.bits }
    }
}

impl core::ops::Sub for Direction4 {
    type Output = Direction4;

    /// The directions of this set that `rhs` does not hold.
    fn sub(self, rhs: Direction4) -> (r: Direction4)
        ensures
            r@ == without_bits(self@, rhs@),
    {
        self.without(rhs)
    }
}

impl vstd::std_specs::ops::SubSpecImpl for Direction4 {
    open spec fn obeys_sub_spec() -> bool {
        true
    }

    open spec fn sub_req(self, rhs: Direction4) -> bool {
        true
    }

    closed spec fn sub_spec(self, rhs: Direction4) -> Direction4 {
        Direction4 { bits: without_bits(self.bits, rhs.bits) }
    }
}

impl Default for Direction4 {
    /// The empty set.
    fn default() -> (r: Direction4)
        ensures
            r@ == 0,
    {
        Direction4 { bits: 0 }
    }
}

/// The direction bits of `a`, among the first `n` of north, south, east and
/// west, in that order.
pub open spec fn directions_upto(a: u8, n: int) -> Seq<u8>
    decreases n,
{
    if n <= 0 {
        seq![]
    } else {
        let b = seq![NORTH_BIT, SOUTH_BIT, EAST_BIT, WEST_BIT][n - 1];
        if contains_bits(a, b) {
            directions_upto(a, n - 1).push(b)
        } else {
            directions_upto(a, n - 1)
        }
    }
}

/// The direction bits that `a` holds, in the order north, south, east, west.
pub open spec fn directions_of(a: u8) -> Seq<u8> {
    directions_upto(a, 4)
}

/// The binary digit of `a` at the place value `place`.
pub open spec fn binary_digit(a: u8, place: u8) -> char {
    if a & place == place {
        '1'
    } else {
        '0'
    }
}

/// The letters of the directions that `a` holds, in the order N, S, E, W.
pub open spec fn direction_letters(a: u8) -> Seq<char> {
    (if contains_bits(a, NORTH_BIT) { seq!['N'] } else { seq![] }) + (if contains_bits(
        a,
        SOUTH_BIT,
    ) {
        seq!['S']
    } else {
        seq![]
    }) + (if contains_bits(a, EAST_BIT) { seq!['E'] } else { seq![] }) + (if contains_bits(
        a,
        WEST_BIT,
    ) {
        seq!['W']
    } else {
        seq![]
    })
}

/// The text that shows the mask `a`: `0b`, its four binary digits, and in
/// parentheses the letters of its directions, or `none` when it is empty.
pub open spec fn describe_bits(a: u8) -> Seq<char> {
    seq![
        '0',
        'b',
        binary_digit(a, WEST_BIT),
        binary_digit(a, EAST_BIT),
        binary_digit(a, SOUTH_BIT),
        binary_digit(a, NORTH_BIT),
        ' ',
        '(',
    ] + (if a == 0 {
        seq!['n', 'o', 'n', 'e']
    } else {
        direction_letters(a)
    }) + seq![')']
}

} // verus!
