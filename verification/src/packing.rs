//! Four history samples to a 32-bit word, most significant byte first.

use vstd::prelude::*;

verus! {

/// The word whose four byte lanes, from the most significant down, are `a`,
/// `b`, `c` and `d`.
pub open spec fn packed(a: u8, b: u8, c: u8, d: u8) -> u32 {
    (a as int * 0x100_0000 + b as int * 0x1_0000 + c as int * 0x100 + d as int) as u32
}

/// The byte in lane `lane` of `word`; lane 0 is the most significant byte.
pub open spec fn lane_of(word: u32, lane: int) -> u8 {
    if lane == 0 {
        (word as int / 0x100_0000) as u8
    } else if lane == 1 {
        (word as int / 0x1_0000 % 0x100) as u8
    } else if lane == 2 {
        (word as int / 0x100 % 0x100) as u8
    } else {
        (word as int % 0x100) as u8
    }
}

/// The four lanes of `word`, lane 0 first.
pub open spec fn lanes(word: u32) -> Seq<u8> {
    seq![lane_of(word, 0), lane_of(word, 1), lane_of(word, 2), lane_of(word, 3)]
}

/// `word` with lane `lane` replaced by `value` and the other three lanes kept.
pub open spec fn with_lane(word: u32, lane: int, value: u8) -> u32 {
    packed(
        if lane == 0 {
            value
        } else {
            lane_of(word, 0)
        },
        if lane == 1 {
            value
        } else {
            lane_of(word, 1)
        },
        if lane == 2 {
            value
        } else {
            lane_of(word, 2)
        },
        if lane == 3 {
            value
        } else {
            lane_of(word, 3)
        },
    )
}

/// Packing and then reading a lane gives back the byte that went in.
pub proof fn lemma_lane_of_packed(a: u8, b: u8, c: u8, d: u8)
    ensures
        lane_of(packed(a, b, c, d), 0) == a,
        lane_of(packed(a, b, c, d), 1) == b,
        lane_of(packed(a, b, c, d), 2) == c,
        lane_of(packed(a, b, c, d), 3) == d,
        lanes(packed(a, b, c, d)) == seq![a, b, c, d],
{
}

/// A word is the packing of its own lanes.
pub proof fn lemma_packed_lanes(word: u32)
    ensures
        packed(lane_of(word, 0), lane_of(word, 1), lane_of(word, 2), lane_of(word, 3)) == word,
{
}

/// Replacing a lane changes that lane and no other.
pub proof fn lemma_with_lane(word: u32, lane: int, value: u8, other: int)
    requires
        0 <= lane < 4,
        0 <= other < 4,
    ensures
        lane_of(with_lane(word, lane, value), lane) == value,
        other != lane ==> lane_of(with_lane(word, lane, value), other) == lane_of(word, other),
{
    let a = if lane == 0 {
        value
    } else {
        lane_of(word, 0)
    };
    let b = if lane == 1 {
        value
    } else {
        lane_of(word, 1)
    };
    let c = if lane == 2 {
        value
    } else {
        lane_of(word, 2)
    };
    let d = if lane == 3 {
        value
    } else {
        lane_of(word, 3)
    };
    lemma_lane_of_packed(a, b, c, d);
}

/// Packs four bytes into a word, `a` in the most significant lane.
#[inline]
pub fn u32e4(a: u8, b: u8, c: u8, d: u8) -> (word: u32)
    ensures
        word == packed(a, b, c, d),
{
    let word: u32 = (a as u32) << 24 | (b as u32) << 16 | (c as u32) << 8 | d as u32;
    assert(((a as u32) << 24 | (b as u32) << 16 | (c as u32) << 8 | d as u32) == (a as u32
        * 0x100_0000 + b as u32 * 0x1_0000 + c as u32 * 0x100 + d as u32) as u32) by (bit_vector);
    word
}

/// Packs three bytes into the upper lanes of a word and clears the lowest.
#[inline]
pub fn u32e3(a: u8, b: u8, c: u8) -> (word: u32)
    ensures
        word == packed(a, b, c, 0),
{
    u32e4(a, b, c, 0)
}

/// Unpacks a word into its four lanes, most significant first.
#[inline]
pub fn u32d4(page: u32) -> (bytes: Vec<u8>)
    ensures
        bytes@ == lanes(page),
{
    let a: u8 = (page >> 24) as u8;
    let b: u8 = ((page >> 16) & 0xff) as u8;
    let c: u8 = ((page >> 8) & 0xff) as u8;
    let d: u8 = (page & 0xff) as u8;
    assert(page >> 24 == page / 0x100_0000) by (bit_vector);
    assert((page >> 16) & 0xff == page / 0x1_0000 % 0x100) by (bit_vector);
    assert((page >> 8) & 0xff == page / 0x100 % 0x100) by (bit_vector);
    assert(page & 0xff == page % 0x100) by (bit_vector);
    let bytes: Vec<u8> = vec![a, b, c, d];
    assert(bytes@ =~= lanes(page));
    bytes
}

} // verus!
