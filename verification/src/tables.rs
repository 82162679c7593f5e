//! The immutable Marching Cubes case tables.
//!
//! The triangulation table maps an 8-bit corner configuration (bit `i` is
//! set when corner `i` samples a negative, solid, value) to the surface
//! inside that unit cube: a list of up to 15 cube-edge indices, three per
//! triangle, terminated by a sentinel. Each table row is packed into one
//! `u64`, entry `i` occupying bits `4 * i .. 4 * i + 4`; an entry below 12
//! is a cube-edge index and any other entry (the packing uses 15) is the
//! sentinel that ends the row. Triangles are listed so that the normal
//! `(v1 - v0) x (v2 - v0)` points out of the solid region, and a row always
//! holds whole triangles: entries come in groups of three.
//!
//! `EDGES_FOR_MARCHING_CUBES` maps a cube-edge index to its two corner
//! indices. Each pair lists the corner nearer the cube origin first, and
//! crossing points are always interpolated from that corner, so the cubes
//! sharing an edge compute bit-identical crossing points.
//!
//! `POINTS_FOR_MARCHING_CUBES` maps a corner index to its unit offset from
//! the cube's lower corner.

use vstd::prelude::*;

verus! {

/// The packed triangulation table, one row per corner configuration.
pub const TRIANGULATIONS_FOR_MARCHING_CUBES: [u64; 256] = [
    0xfffffffffffffff, 0xffffffffffff308, 0xffffffffffff190, 0xfffffffff318198,
    0xffffffffffff12a, 0xfffffffff12a308, 0xfffffffff2a0a90, 0xffffff3282a8a98,
    0xffffffffffff3b2, 0xfffffffffb28208, 0xfffffffff3b2190, 0xffffffb28218198,
    0xfffffffff13a3ba, 0xffffffba8a18108, 0xffffff3b0ba0a90, 0xfffffffffba8a98,
    0xffffffffffff784, 0xfffffffff734304, 0xfffffffff784190, 0xffffff734314194,
    0xfffffffff12a784, 0xffffff12a734304, 0xffffff7842a0a90, 0xfff7343242a4a94,
    0xfffffffff3b2784, 0xffffff7b4b24204, 0xffffff3b2784190, 0xfff7b4b24214194,
    0xffffff13a3ba784, 0xfff7b4ba4a14104, 0xfff7843b0ba0a90, 0xffffff7b4ba4a94,
    0xffffffffffff549, 0xfffffffff549308, 0xfffffffff150540, 0xffffff318158548,
    0xfffffffff12a549, 0xffffff12a549308, 0xffffff2a0a50540, 0xfff3282a8a58548,
    0xfffffffff3b2549, 0xffffff549b28208, 0xffffff3b2150540, 0xfffb28218158548,
    0xffffff13a3ba549, 0xfff549ba8a18108, 0xfff3b0ba0a50540, 0xffffffba8a58548,
    0xfffffffff579789, 0xffffff579739309, 0xffffff150570780, 0xfffffffff571731,
    0xffffff12a579789, 0xfff12a579739309, 0xfff2a0a50570780, 0xffffff57a73a32a,
    0xffffff3b2579789, 0xfff5797b9b29209, 0xfff3b2150570780, 0xffffff1525727b2,
    0xfff13a3ba579789, 0x5797b9ba9a19109, 0x3b0ba0a50570780, 0xfffffffff57a7ba,
    0xffffffffffff5a6, 0xfffffffff5a6308, 0xfffffffff5a6190, 0xffffff5a6318198,
    0xfffffffff516126, 0xffffff516126308, 0xffffff260650590, 0xfff328268658598,
    0xfffffffff5a63b2, 0xffffff5a6b28208, 0xffffff5a63b2190, 0xfff5a6b28218198,
    0xffffff5161363b6, 0xfffb68658518108, 0xfff3b0b60650590, 0xffffffb68658598,
    0xfffffffff5a6784, 0xffffff5a6734304, 0xffffff5a6784190, 0xfff5a6734314194,
    0xffffff516126784, 0xfff516126734304, 0xfff784260650590, 0x734324264654594,
    0xffffff5a63b2784, 0xfff5a67b4b24204, 0xfff5a63b2784190, 0x5a67b4b24214194,
    0xfff5161363b6784, 0x7b4b64654514104, 0x7843b0b60650590, 0xfff7b4b64654594,
    0xfffffffffa69649, 0xffffffa69649308, 0xffffff1a0a60640, 0xfff3181a8a68648,
    0xffffff129269649, 0xfff129269649308, 0xfffffffff260640, 0xffffff328268648,
    0xffffff3b2a69649, 0xfffa69649b28208, 0xfff3b21a0a60640, 0xb282181a8a68648,
    0xfff1393b9b69649, 0xb68648498918108, 0xffffff3b0b60640, 0xfffffffffb68648,
    0xffffffa69679789, 0xfffa69679739309, 0xfff1a0a60670780, 0xffffff7363161a6,
    0xfff129269679789, 0x129269679739309, 0xffffff260670780, 0xfffffffff736326,
    0xfff3b2a69679789, 0xa696797b9b29209, 0x3b21a0a60670780, 0xfff1a2a626727b2,
    0x1393b9b69679789, 0xfffffffff7b6109, 0xfff3b0b60670780, 0xffffffffffff7b6,
    0xffffffffffff76b, 0xfffffffff76b308, 0xfffffffff76b190, 0xffffff76b318198,
    0xfffffffff76b12a, 0xffffff76b12a308, 0xffffff76b2a0a90, 0xfff76b3282a8a98,
    0xfffffffff372762, 0xffffff768628208, 0xffffff372762190, 0xfff768628218198,
    0xffffff13a37a76a, 0xfff7686a8a18108, 0xfff3707606a0a90, 0xffffff7686a8a98,
    0xfffffffff6b4b84, 0xffffff6b4b34304, 0xffffff6b4b84190, 0xfff6b4b34314194,
    0xffffff12a6b4b84, 0xfff12a6b4b34304, 0xfff6b4b842a0a90, 0x6b4b343242a4a94,
    0xffffff624234384, 0xfffffffff624204, 0xfff624234384190, 0xffffff624214194,
    0xfff6a4a14134384, 0xffffff6a4a14104, 0x3808404606a0a90, 0xfffffffff6a4a94,
    0xfffffffff76b549, 0xffffff76b549308, 0xffffff76b150540, 0xfff76b318158548,
    0xffffff76b12a549, 0xfff76b12a549308, 0xfff76b2a0a50540, 0x76b3282a8a58548,
    0xffffff372762549, 0xfff549768628208, 0xfff372762150540, 0x768628218158548,
    0xfff13a37a76a549, 0x5497686a8a18108, 0x3707606a0a50540, 0xfff7686a8a58548,
    0xffffff5696b9b89, 0xfff5696b9b39309, 0xfff1505606b0b80, 0xffffff31b15b56b,
    0xfff12a5696b9b89, 0x12a5696b9b39309, 0x2a0a505606b0b80, 0xfff56a6bab3a32a,
    0xfff569629239389, 0xffffff569629209, 0x150560620230380, 0xfffffffff152562,
    0x5696a9a19139389, 0xfff5696a9a19109, 0xfffffffff56a380, 0xffffffffffff56a,
    0xfffffffff75b5ab, 0xffffff75b5ab308, 0xffffff75b5ab190, 0xfff75b5ab318198,
    0xffffff75b51b12b, 0xfff75b51b12b308, 0xfff2b0b70750590, 0x3282b8b78758598,
    0xffffff3727525a2, 0xfff7585a8a28208, 0xfff3727525a2190, 0x7585a8a28218198,
    0xfffffffff753513, 0xffffff758518108, 0xffffff370750590, 0xfffffffff758598,
    0xffffff5a4ab4b84, 0xfff5a4ab4b34304, 0xfff5a4ab4b84190, 0x5a4ab4b34314194,
    0xfff5141242b4b84, 0x5141242b4b34304, 0x2b0b80840450590, 0xfffffffff32b594,
    0xfff5a4a24234384, 0xffffff5a4a24204, 0x5a4a24234384190, 0xfff5a4a24214194,
    0xffffff514134384, 0xfffffffff514104, 0xfff380840450590, 0xffffffffffff594,
    0xffffffab9b79749, 0xfffab9b79749308, 0xfff1a0ab0b70740, 0x3181a8ab8b78748,
    0xfff1292b9b79749, 0x1292b9b79749308, 0xffffff2b0b70740, 0xfff3282b8b78748,
    0xfffa29239379749, 0x7484989a8a28208, 0x1a0a20230370740, 0xfffffffff1a2748,
    0xffffff139379749, 0xfff748498918108, 0xfffffffff370740, 0xffffffffffff748,
    0xfffffffffab9b89, 0xffffffab9b39309, 0xffffff1a0ab0b80, 0xfffffffff31b1ab,
    0xffffff1292b9b89, 0xfff1292b9b39309, 0xfffffffff2b0b80, 0xffffffffffff32b,
    0xffffffa29239389, 0xfffffffffa29209, 0xfff1a0a20230380, 0xffffffffffff1a2,
    0xfffffffff139389, 0xffffffffffff109, 0xffffffffffff380, 0xfffffffffffffff,
];

/// Powers of 16, for unpacking one 4-bit entry of a table row.
pub const ENTRY_PLACES: [u64; 15] = [
    0x1, 0x10, 0x100, 0x1000, 0x10000, 0x100000, 0x1000000, 0x10000000,
    0x100000000, 0x1000000000, 0x10000000000, 0x100000000000,
    0x1000000000000, 0x10000000000000, 0x100000000000000,
];

/// Cube-edge index to the pair of corner indices it connects, the corner
/// nearer the cube origin first.
pub const EDGES_FOR_MARCHING_CUBES: [[usize; 2]; 12] = [
    [0, 1],
    [1, 2],
    [3, 2],
    [0, 3],
    [4, 5],
    [5, 6],
    [7, 6],
    [4, 7],
    [0, 4],
    [1, 5],
    [2, 6],
    [3, 7],
];

/// Corner index to its unit offset from the cube's lower corner.
pub const POINTS_FOR_MARCHING_CUBES: [[usize; 3]; 8] = [
    [0, 0, 0],
    [0, 0, 1],
    [1, 0, 1],
    [1, 0, 0],
    [0, 1, 0],
    [0, 1, 1],
    [1, 1, 1],
    [1, 1, 0],
];

/// Entry `i` of the triangulation row for `config`: a cube-edge index below
/// 12, or a sentinel value (12 or above) that terminates the row.
pub open spec fn tri_entry(config: int, i: int) -> int {
    (TRIANGULATIONS_FOR_MARCHING_CUBES[config] as int / ENTRY_PLACES[i] as int) % 16
}

/// Reads entry `i` of the triangulation row for `config`.
pub fn read_tri_entry(config: u8, i: usize) -> (e: u64)
    requires
        i < 15,
    ensures
        e == tri_entry(config as int, i as int),
        0 <= e < 16,
{
    let row: u64 = TRIANGULATIONS_FOR_MARCHING_CUBES[config as usize];
    (row / ENTRY_PLACES[i]) % 16
}

/// A table entry is one of the 16 values a 4-bit field can hold.
pub proof fn lemma_tri_entry_range(config: int, i: int)
    requires
        0 <= i < 15,
    ensures
        0 <= tri_entry(config, i) <= 15,
{
    assert(forall|j: int| 0 <= j < 15 ==> 1 <= #[trigger] ENTRY_PLACES[j]);
    let row = TRIANGULATIONS_FOR_MARCHING_CUBES[config] as int;
    let place = ENTRY_PLACES[i] as int;
    vstd::arithmetic::div_mod::lemma_div_pos_is_pos(row, place);
    vstd::arithmetic::div_mod::lemma_mod_bound(row / place, 16);
}

/// Pins one table entry to its value by exhibiting the quotient and
/// remainder of the two divisions that unpack it.
pub proof fn lemma_tri_entry_value(config: int, i: int, q: int, e: int, r1: int, q2: int)
    requires
        0 <= i < 15,
        0 < ENTRY_PLACES[i] as int,
        TRIANGULATIONS_FOR_MARCHING_CUBES[config] as int == ENTRY_PLACES[i] as int * q + r1,
        0 <= r1 < ENTRY_PLACES[i] as int,
        q == 16 * q2 + e,
        0 <= e < 16,
    ensures
        tri_entry(config, i) == e,
{
    vstd::arithmetic::div_mod::lemma_fundamental_div_mod_converse(
        TRIANGULATIONS_FOR_MARCHING_CUBES[config] as int,
        ENTRY_PLACES[i] as int,
        q,
        r1,
    );
    vstd::arithmetic::div_mod::lemma_fundamental_div_mod_converse(q, 16, q2, e);
}

/// Every edge joins two of the 8 corners, and lists the corner nearer the
/// cube origin first, so each offset of the first corner is at most the
/// matching offset of the second.
pub proof fn lemma_edge_table_valid()
    ensures
        forall|e: int, j: int|
            0 <= e < 12 && 0 <= j < 2 ==> 0 <= #[trigger] EDGES_FOR_MARCHING_CUBES[e][j] < 8,
        forall|i: int, j: int|
            0 <= i < 8 && 0 <= j < 3 ==> #[trigger] POINTS_FOR_MARCHING_CUBES[i][j] <= 1,
        forall|e: int, j: int|
            0 <= e < 12 && 0 <= j < 3 ==> #[trigger] POINTS_FOR_MARCHING_CUBES[
                EDGES_FOR_MARCHING_CUBES[e][0] as int][j]
                <= POINTS_FOR_MARCHING_CUBES[EDGES_FOR_MARCHING_CUBES[e][1] as int][j],
{
}

} // verus!
