use vstd::prelude::*;

verus! {

// ── Corners and edges of a cell ──────────────────────────────────────────────

/// Corner `c` of a cell sits at these offsets from the cell's low corner, in
/// units of the cell's size.
pub const NEIGHBORS: [[u8; 3]; 8] = [
    [0, 0, 0], [1, 0, 0],
    [0, 1, 0], [1, 1, 0],
    [0, 0, 1], [1, 0, 1],
    [0, 1, 1], [1, 1, 1],
];

/// The offset of corner `c` along each axis: the bits of `c`.
pub open spec fn corner_offset_spec(c: int) -> (int, int, int) {
    (c % 2, (c / 2) % 2, (c / 4) % 2)
}

/// The offsets of a corner of a cell.
pub fn corner_offset(c: u8) -> (r: [u8; 3])
    requires
        c < 8,
    ensures
        (r[0] as int, r[1] as int, r[2] as int) == corner_offset_spec(c as int),
{
    let r = NEIGHBORS[c as usize];
    assert(c == 0 || c == 1 || c == 2 || c == 3 || c == 4 || c == 5 || c == 6 || c == 7);
    r
}

/// The two corners that edge `e` of a cell joins.
pub open spec fn edge_ends(e: int) -> (int, int) {
    if e == 0 {
        (0, 1)
    } else if e == 1 {
        (1, 3)
    } else if e == 2 {
        (3, 2)
    } else if e == 3 {
        (2, 0)
    } else if e == 4 {
        (4, 5)
    } else if e == 5 {
        (5, 7)
    } else if e == 6 {
        (7, 6)
    } else if e == 7 {
        (6, 4)
    } else if e == 8 {
        (0, 4)
    } else if e == 9 {
        (1, 5)
    } else if e == 10 {
        (3, 7)
    } else {
        (2, 6)
    }
}

/// The two corners that an edge of a cell joins.
pub fn edge_corners(e: u8) -> (r: (u8, u8))
    requires
        e < 12,
    ensures
        (r.0 as int, r.1 as int) == edge_ends(e as int),
{
    match e {
        0 => (0, 1),
        1 => (1, 3),
        2 => (3, 2),
        3 => (2, 0),
        4 => (4, 5),
        5 => (5, 7),
        6 => (7, 6),
        7 => (6, 4),
        8 => (0, 4),
        9 => (1, 5),
        10 => (3, 7),
        _ => (2, 6),
    }
}

// ── The pattern of a cell ────────────────────────────────────────────────────

/// Whether corner `c` is above the surface in the pattern `index`: bit `c`
/// of `index`.
pub open spec fn corner_bit(index: int, c: int) -> bool {
    let p: int = if c == 0 {
        1
    } else if c == 1 {
        2
    } else if c == 2 {
        4
    } else if c == 3 {
        8
    } else if c == 4 {
        16
    } else if c == 5 {
        32
    } else if c == 6 {
        64
    } else {
        128
    };
    (index / p) % 2 == 1
}

/// The pattern of a cell whose corner `c` is above the surface exactly when
/// `above[c]` holds: the sum of `2^c` over those corners.
pub open spec fn pattern_of(above: [bool; 8]) -> int {
    (if above[0] { 1int } else { 0 }) + (if above[1] { 2int } else { 0 }) + (if above[2] { 4int } else { 0 })
        + (if above[3] { 8int } else { 0 }) + (if above[4] { 16int } else { 0 }) + (if above[5] { 32int } else { 0 })
        + (if above[6] { 64int } else { 0 }) + (if above[7] { 128int } else { 0 })
}

/// The pattern of a cell from which of its corners are above the surface.
pub fn cube_index(above: &[bool; 8]) -> (r: u8)
    ensures
        r as int == pattern_of(*above),
{
    let mut acc: u8 = 0;
    if above[0] {
        acc = acc + 1;
    }
    if above[1] {
        acc = acc + 2;
    }
    if above[2] {
        acc = acc + 4;
    }
    if above[3] {
        acc = acc + 8;
    }
    if above[4] {
        acc = acc + 16;
    }
    if above[5] {
        acc = acc + 32;
    }
    if above[6] {
        acc = acc + 64;
    }
    if above[7] {
        acc = acc + 128;
    }
    acc
}

// ── The triangle table ───────────────────────────────────────────────────────

/// One row of the triangle table: edges of the cell, three per triangle,
/// then `-1` to the end.
#[derive(Clone, Copy)]
pub struct EdgeRow(pub i8, pub i8, pub i8, pub i8, pub i8, pub i8, pub i8, pub i8, pub i8, pub i8, pub i8, pub i8);

impl View for EdgeRow {
    type V = (int, int, int, int, int, int, int, int, int, int, int, int);

    open spec fn view(&self) -> (int, int, int, int, int, int, int, int, int, int, int, int) {
        (
            self.0 as int,
            self.1 as int,
            self.2 as int,
            self.3 as int,
            self.4 as int,
            self.5 as int,
            self.6 as int,
            self.7 as int,
            self.8 as int,
            self.9 as int,
            self.10 as int,
            self.11 as int,
        )
    }
}

/// For each pattern of corners above the surface, the edges that the
/// surface crosses, three per triangle, then `-1`.
#[verifier::opaque]
pub open spec fn mc_row(index: u8) -> (int, int, int, int, int, int, int, int, int, int, int, int) {
    match index {
        0 => (-1, -1, -1, -1, -1, -1, -1, -1, -1, -1, -1, -1),
        1 => (0, 3, 8, -1, -1, -1, -1, -1, -1, -1, -1, -1),
        2 => (0, 9, 1, -1, -1, -1, -1, -1, -1, -1, -1, -1),
        3 => (3, 8, 1, 1, 8, 9, -1, -1, -1, -1, -1, -1),
        4 => (2, 11, 3, -1, -1, -1, -1, -1, -1, -1, -1, -1),
        5 => (8, 0, 11, 11, 0, 2, -1, -1, -1, -1, -1, -1),
        6 => (3, 2, 11, 1, 0, 9, -1, -1, -1, -1, -1, -1),
        7 => (11, 1, 2, 11, 9, 1, 11, 8, 9, -1, -1, -1),
        8 => (1, 10, 2, -1, -1, -1, -1, -1, -1, -1, -1, -1),
        9 => (0, 3, 8, 2, 1, 10, -1, -1, -1, -1, -1, -1),
        10 => (10, 2, 9, 9, 2, 0, -1, -1, -1, -1, -1, -1),
        11 => (8, 2, 3, 8, 10, 2, 8, 9, 10, -1, -1, -1),
        12 => (11, 3, 10, 10, 3, 1, -1, -1, -1, -1, -1, -1),
        13 => (10, 0, 1, 10, 8, 0, 10, 11, 8, -1, -1, -1),
        14 => (9, 3, 0, 9, 11, 3, 9, 10, 11, -1, -1, -1),
        15 => (8, 9, 11, 11, 9, 10, -1, -1, -1, -1, -1, -1),
        16 => (4, 8, 7, -1, -1, -1, -1, -1, -1, -1, -1, -1),
        17 => (7, 4, 3, 3, 4, 0, -1, -1, -1, -1, -1, -1),
        18 => (4, 8, 7, 0, 9, 1, -1, -1, -1, -1, -1, -1),
        19 => (1, 4, 9, 1, 7, 4, 1, 3, 7, -1, -1, -1),
        20 => (8, 7, 4, 11, 3, 2, -1, -1, -1, -1, -1, -1),
        21 => (4, 11, 7, 4, 2, 11, 4, 0, 2, -1, -1, -1),
        22 => (0, 9, 1, 8, 7, 4, 11, 3, 2, -1, -1, -1),
        23 => (7, 4, 11, 11, 4, 2, 2, 4, 9, 2, 9, 1),
        24 => (4, 8, 7, 2, 1, 10, -1, -1, -1, -1, -1, -1),
        25 => (7, 4, 3, 3, 4, 0, 10, 2, 1, -1, -1, -1),
        26 => (10, 2, 9, 9, 2, 0, 7, 4, 8, -1, -1, -1),
        27 => (10, 2, 3, 10, 3, 4, 3, 7, 4, 9, 10, 4),
        28 => (1, 10, 3, 3, 10, 11, 4, 8, 7, -1, -1, -1),
        29 => (10, 11, 1, 11, 7, 4, 1, 11, 4, 1, 4, 0),
        30 => (7, 4, 8, 9, 3, 0, 9, 11, 3, 9, 10, 11),
        31 => (7, 4, 11, 4, 9, 11, 9, 10, 11, -1, -1, -1),
        32 => (9, 4, 5, -1, -1, -1, -1, -1, -1, -1, -1, -1),
        33 => (9, 4, 5, 8, 0, 3, -1, -1, -1, -1, -1, -1),
        34 => (4, 5, 0, 0, 5, 1, -1, -1, -1, -1, -1, -1),
        35 => (5, 8, 4, 5, 3, 8, 5, 1, 3, -1, -1, -1),
        36 => (9, 4, 5, 11, 3, 2, -1, -1, -1, -1, -1, -1),
        37 => (2, 11, 0, 0, 11, 8, 5, 9, 4, -1, -1, -1),
        38 => (4, 5, 0, 0, 5, 1, 11, 3, 2, -1, -1, -1),
        39 => (5, 1, 4, 1, 2, 11, 4, 1, 11, 4, 11, 8),
        40 => (1, 10, 2, 5, 9, 4, -1, -1, -1, -1, -1, -1),
        41 => (9, 4, 5, 0, 3, 8, 2, 1, 10, -1, -1, -1),
        42 => (2, 5, 10, 2, 4, 5, 2, 0, 4, -1, -1, -1),
        43 => (10, 2, 5, 5, 2, 4, 4, 2, 3, 4, 3, 8),
        44 => (11, 3, 10, 10, 3, 1, 4, 5, 9, -1, -1, -1),
        45 => (4, 5, 9, 10, 0, 1, 10, 8, 0, 10, 11, 8),
        46 => (11, 3, 0, 11, 0, 5, 0, 4, 5, 10, 11, 5),
        47 => (4, 5, 8, 5, 10, 8, 10, 11, 8, -1, -1, -1),
        48 => (8, 7, 9, 9, 7, 5, -1, -1, -1, -1, -1, -1),
        49 => (3, 9, 0, 3, 5, 9, 3, 7, 5, -1, -1, -1),
        50 => (7, 0, 8, 7, 1, 0, 7, 5, 1, -1, -1, -1),
        51 => (7, 5, 3, 3, 5, 1, -1, -1, -1, -1, -1, -1),
        52 => (5, 9, 7, 7, 9, 8, 2, 11, 3, -1, -1, -1),
        53 => (2, 11, 7, 2, 7, 9, 7, 5, 9, 0, 2, 9),
        54 => (2, 11, 3, 7, 0, 8, 7, 1, 0, 7, 5, 1),
        55 => (2, 11, 1, 11, 7, 1, 7, 5, 1, -1, -1, -1),
        56 => (8, 7, 9, 9, 7, 5, 2, 1, 10, -1, -1, -1),
        57 => (10, 2, 1, 3, 9, 0, 3, 5, 9, 3, 7, 5),
        58 => (7, 5, 8, 5, 10, 2, 8, 5, 2, 8, 2, 0),
        59 => (10, 2, 5, 2, 3, 5, 3, 7, 5, -1, -1, -1),
        60 => (8, 7, 5, 8, 5, 9, 11, 3, 10, 3, 1, 10),
        61 => (5, 11, 7, 10, 11, 5, 1, 9, 0, -1, -1, -1),
        62 => (11, 5, 10, 7, 5, 11, 8, 3, 0, -1, -1, -1),
        63 => (5, 11, 7, 10, 11, 5, -1, -1, -1, -1, -1, -1),
        64 => (6, 7, 11, -1, -1, -1, -1, -1, -1, -1, -1, -1),
        65 => (7, 11, 6, 3, 8, 0, -1, -1, -1, -1, -1, -1),
        66 => (6, 7, 11, 0, 9, 1, -1, -1, -1, -1, -1, -1),
        67 => (9, 1, 8, 8, 1, 3, 6, 7, 11, -1, -1, -1),
        68 => (3, 2, 7, 7, 2, 6, -1, -1, -1, -1, -1, -1),
        69 => (0, 7, 8, 0, 6, 7, 0, 2, 6, -1, -1, -1),
        70 => (6, 7, 2, 2, 7, 3, 9, 1, 0, -1, -1, -1),
        71 => (6, 7, 8, 6, 8, 1, 8, 9, 1, 2, 6, 1),
        72 => (11, 6, 7, 10, 2, 1, -1, -1, -1, -1, -1, -1),
        73 => (3, 8, 0, 11, 6, 7, 10, 2, 1, -1, -1, -1),
        74 => (0, 9, 2, 2, 9, 10, 7, 11, 6, -1, -1, -1),
        75 => (6, 7, 11, 8, 2, 3, 8, 10, 2, 8, 9, 10),
        76 => (7, 10, 6, 7, 1, 10, 7, 3, 1, -1, -1, -1),
        77 => (8, 0, 7, 7, 0, 6, 6, 0, 1, 6, 1, 10),
        78 => (7, 3, 6, 3, 0, 9, 6, 3, 9, 6, 9, 10),
        79 => (6, 7, 10, 7, 8, 10, 8, 9, 10, -1, -1, -1),
        80 => (11, 6, 8, 8, 6, 4, -1, -1, -1, -1, -1, -1),
        81 => (6, 3, 11, 6, 0, 3, 6, 4, 0, -1, -1, -1),
        82 => (11, 6, 8, 8, 6, 4, 1, 0, 9, -1, -1, -1),
        83 => (1, 3, 9, 3, 11, 6, 9, 3, 6, 9, 6, 4),
        84 => (2, 8, 3, 2, 4, 8, 2, 6, 4, -1, -1, -1),
        85 => (4, 0, 6, 6, 0, 2, -1, -1, -1, -1, -1, -1),
        86 => (9, 1, 0, 2, 8, 3, 2, 4, 8, 2, 6, 4),
        87 => (9, 1, 4, 1, 2, 4, 2, 6, 4, -1, -1, -1),
        88 => (4, 8, 6, 6, 8, 11, 1, 10, 2, -1, -1, -1),
        89 => (1, 10, 2, 6, 3, 11, 6, 0, 3, 6, 4, 0),
        90 => (11, 6, 4, 11, 4, 8, 10, 2, 9, 2, 0, 9),
        91 => (10, 4, 9, 6, 4, 10, 11, 2, 3, -1, -1, -1),
        92 => (4, 8, 3, 4, 3, 10, 3, 1, 10, 6, 4, 10),
        93 => (1, 10, 0, 10, 6, 0, 6, 4, 0, -1, -1, -1),
        94 => (4, 10, 6, 9, 10, 4, 0, 8, 3, -1, -1, -1),
        95 => (4, 10, 6, 9, 10, 4, -1, -1, -1, -1, -1, -1),
        96 => (6, 7, 11, 4, 5, 9, -1, -1, -1, -1, -1, -1),
        97 => (4, 5, 9, 7, 11, 6, 3, 8, 0, -1, -1, -1),
        98 => (1, 0, 5, 5, 0, 4, 11, 6, 7, -1, -1, -1),
        99 => (11, 6, 7, 5, 8, 4, 5, 3, 8, 5, 1, 3),
        100 => (3, 2, 7, 7, 2, 6, 9, 4, 5, -1, -1, -1),
        101 => (5, 9, 4, 0, 7, 8, 0, 6, 7, 0, 2, 6),
        102 => (3, 2, 6, 3, 6, 7, 1, 0, 5, 0, 4, 5),
        103 => (6, 1, 2, 5, 1, 6, 4, 7, 8, -1, -1, -1),
        104 => (10, 2, 1, 6, 7, 11, 4, 5, 9, -1, -1, -1),
        105 => (0, 3, 8, 4, 5, 9, 11, 6, 7, 10, 2, 1),
        106 => (7, 11, 6, 2, 5, 10, 2, 4, 5, 2, 0, 4),
        107 => (8, 4, 7, 5, 10, 6, 3, 11, 2, -1, -1, -1),
        108 => (9, 4, 5, 7, 10, 6, 7, 1, 10, 7, 3, 1),
        109 => (10, 6, 5, 7, 8, 4, 1, 9, 0, -1, -1, -1),
        110 => (4, 3, 0, 7, 3, 4, 6, 5, 10, -1, -1, -1),
        111 => (10, 6, 5, 8, 4, 7, -1, -1, -1, -1, -1, -1),
        112 => (9, 6, 5, 9, 11, 6, 9, 8, 11, -1, -1, -1),
        113 => (11, 6, 3, 3, 6, 0, 0, 6, 5, 0, 5, 9),
        114 => (11, 6, 5, 11, 5, 0, 5, 1, 0, 8, 11, 0),
        115 => (11, 6, 3, 6, 5, 3, 5, 1, 3, -1, -1, -1),
        116 => (9, 8, 5, 8, 3, 2, 5, 8, 2, 5, 2, 6),
        117 => (5, 9, 6, 9, 0, 6, 0, 2, 6, -1, -1, -1),
        118 => (1, 6, 5, 2, 6, 1, 3, 0, 8, -1, -1, -1),
        119 => (1, 6, 5, 2, 6, 1, -1, -1, -1, -1, -1, -1),
        120 => (2, 1, 10, 9, 6, 5, 9, 11, 6, 9, 8, 11),
        121 => (9, 0, 1, 3, 11, 2, 5, 10, 6, -1, -1, -1),
        122 => (11, 0, 8, 2, 0, 11, 10, 6, 5, -1, -1, -1),
        123 => (3, 11, 2, 5, 10, 6, -1, -1, -1, -1, -1, -1),
        124 => (1, 8, 3, 9, 8, 1, 5, 10, 6, -1, -1, -1),
        125 => (6, 5, 10, 0, 1, 9, -1, -1, -1, -1, -1, -1),
        126 => (8, 3, 0, 5, 10, 6, -1, -1, -1, -1, -1, -1),
        127 => (6, 5, 10, -1, -1, -1, -1, -1, -1, -1, -1, -1),
        128 => (10, 5, 6, -1, -1, -1, -1, -1, -1, -1, -1, -1),
        129 => (0, 3, 8, 6, 10, 5, -1, -1, -1, -1, -1, -1),
        130 => (10, 5, 6, 9, 1, 0, -1, -1, -1, -1, -1, -1),
        131 => (3, 8, 1, 1, 8, 9, 6, 10, 5, -1, -1, -1),
        132 => (2, 11, 3, 6, 10, 5, -1, -1, -1, -1, -1, -1),
        133 => (8, 0, 11, 11, 0, 2, 5, 6, 10, -1, -1, -1),
        134 => (1, 0, 9, 2, 11, 3, 6, 10, 5, -1, -1, -1),
        135 => (5, 6, 10, 11, 1, 2, 11, 9, 1, 11, 8, 9),
        136 => (5, 6, 1, 1, 6, 2, -1, -1, -1, -1, -1, -1),
        137 => (5, 6, 1, 1, 6, 2, 8, 0, 3, -1, -1, -1),
        138 => (6, 9, 5, 6, 0, 9, 6, 2, 0, -1, -1, -1),
        139 => (6, 2, 5, 2, 3, 8, 5, 2, 8, 5, 8, 9),
        140 => (3, 6, 11, 3, 5, 6, 3, 1, 5, -1, -1, -1),
        141 => (8, 0, 1, 8, 1, 6, 1, 5, 6, 11, 8, 6),
        142 => (11, 3, 6, 6, 3, 5, 5, 3, 0, 5, 0, 9),
        143 => (5, 6, 9, 6, 11, 9, 11, 8, 9, -1, -1, -1),
        144 => (5, 6, 10, 7, 4, 8, -1, -1, -1, -1, -1, -1),
        145 => (0, 3, 4, 4, 3, 7, 10, 5, 6, -1, -1, -1),
        146 => (5, 6, 10, 4, 8, 7, 0, 9, 1, -1, -1, -1),
        147 => (6, 10, 5, 1, 4, 9, 1, 7, 4, 1, 3, 7),
        148 => (7, 4, 8, 6, 10, 5, 2, 11, 3, -1, -1, -1),
        149 => (10, 5, 6, 4, 11, 7, 4, 2, 11, 4, 0, 2),
        150 => (4, 8, 7, 6, 10, 5, 3, 2, 11, 1, 0, 9),
        151 => (1, 2, 10, 11, 7, 6, 9, 5, 4, -1, -1, -1),
        152 => (2, 1, 6, 6, 1, 5, 8, 7, 4, -1, -1, -1),
        153 => (0, 3, 7, 0, 7, 4, 2, 1, 6, 1, 5, 6),
        154 => (8, 7, 4, 6, 9, 5, 6, 0, 9, 6, 2, 0),
        155 => (7, 2, 3, 6, 2, 7, 5, 4, 9, -1, -1, -1),
        156 => (4, 8, 7, 3, 6, 11, 3, 5, 6, 3, 1, 5),
        157 => (5, 0, 1, 4, 0, 5, 7, 6, 11, -1, -1, -1),
        158 => (9, 5, 4, 6, 11, 7, 0, 8, 3, -1, -1, -1),
        159 => (11, 7, 6, 9, 5, 4, -1, -1, -1, -1, -1, -1),
        160 => (6, 10, 4, 4, 10, 9, -1, -1, -1, -1, -1, -1),
        161 => (6, 10, 4, 4, 10, 9, 3, 8, 0, -1, -1, -1),
        162 => (0, 10, 1, 0, 6, 10, 0, 4, 6, -1, -1, -1),
        163 => (6, 10, 1, 6, 1, 8, 1, 3, 8, 4, 6, 8),
        164 => (9, 4, 10, 10, 4, 6, 3, 2, 11, -1, -1, -1),
        165 => (2, 11, 8, 2, 8, 0, 6, 10, 4, 10, 9, 4),
        166 => (11, 3, 2, 0, 10, 1, 0, 6, 10, 0, 4, 6),
        167 => (6, 8, 4, 11, 8, 6, 2, 10, 1, -1, -1, -1),
        168 => (4, 1, 9, 4, 2, 1, 4, 6, 2, -1, -1, -1),
        169 => (3, 8, 0, 4, 1, 9, 4, 2, 1, 4, 6, 2),
        170 => (6, 2, 4, 4, 2, 0, -1, -1, -1, -1, -1, -1),
        171 => (3, 8, 2, 8, 4, 2, 4, 6, 2, -1, -1, -1),
        172 => (4, 6, 9, 6, 11, 3, 9, 6, 3, 9, 3, 1),
        173 => (8, 6, 11, 4, 6, 8, 9, 0, 1, -1, -1, -1),
        174 => (11, 3, 6, 3, 0, 6, 0, 4, 6, -1, -1, -1),
        175 => (8, 6, 11, 4, 6, 8, -1, -1, -1, -1, -1, -1),
        176 => (10, 7, 6, 10, 8, 7, 10, 9, 8, -1, -1, -1),
        177 => (3, 7, 0, 7, 6, 10, 0, 7, 10, 0, 10, 9),
        178 => (6, 10, 7, 7, 10, 8, 8, 10, 1, 8, 1, 0),
        179 => (6, 10, 7, 10, 1, 7, 1, 3, 7, -1, -1, -1),
        180 => (3, 2, 11, 10, 7, 6, 10, 8, 7, 10, 9, 8),
        181 => (2, 9, 0, 10, 9, 2, 6, 11, 7, -1, -1, -1),
        182 => (0, 8, 3, 7, 6, 11, 1, 2, 10, -1, -1, -1),
        183 => (7, 6, 11, 1, 2, 10, -1, -1, -1, -1, -1, -1),
        184 => (2, 1, 9, 2, 9, 7, 9, 8, 7, 6, 2, 7),
        185 => (2, 7, 6, 3, 7, 2, 0, 1, 9, -1, -1, -1),
        186 => (8, 7, 0, 7, 6, 0, 6, 2, 0, -1, -1, -1),
        187 => (7, 2, 3, 6, 2, 7, -1, -1, -1, -1, -1, -1),
        188 => (8, 1, 9, 3, 1, 8, 11, 7, 6, -1, -1, -1),
        189 => (11, 7, 6, 1, 9, 0, -1, -1, -1, -1, -1, -1),
        190 => (6, 11, 7, 0, 8, 3, -1, -1, -1, -1, -1, -1),
        191 => (11, 7, 6, -1, -1, -1, -1, -1, -1, -1, -1, -1),
        192 => (7, 11, 5, 5, 11, 10, -1, -1, -1, -1, -1, -1),
        193 => (10, 5, 11, 11, 5, 7, 0, 3, 8, -1, -1, -1),
        194 => (7, 11, 5, 5, 11, 10, 0, 9, 1, -1, -1, -1),
        195 => (7, 11, 10, 7, 10, 5, 3, 8, 1, 8, 9, 1),
        196 => (5, 2, 10, 5, 3, 2, 5, 7, 3, -1, -1, -1),
        197 => (5, 7, 10, 7, 8, 0, 10, 7, 0, 10, 0, 2),
        198 => (0, 9, 1, 5, 2, 10, 5, 3, 2, 5, 7, 3),
        199 => (9, 7, 8, 5, 7, 9, 10, 1, 2, -1, -1, -1),
        200 => (1, 11, 2, 1, 7, 11, 1, 5, 7, -1, -1, -1),
        201 => (8, 0, 3, 1, 11, 2, 1, 7, 11, 1, 5, 7),
        202 => (7, 11, 2, 7, 2, 9, 2, 0, 9, 5, 7, 9),
        203 => (7, 9, 5, 8, 9, 7, 3, 11, 2, -1, -1, -1),
        204 => (3, 1, 7, 7, 1, 5, -1, -1, -1, -1, -1, -1),
        205 => (8, 0, 7, 0, 1, 7, 1, 5, 7, -1, -1, -1),
        206 => (0, 9, 3, 9, 5, 3, 5, 7, 3, -1, -1, -1),
        207 => (9, 7, 8, 5, 7, 9, -1, -1, -1, -1, -1, -1),
        208 => (8, 5, 4, 8, 10, 5, 8, 11, 10, -1, -1, -1),
        209 => (0, 3, 11, 0, 11, 5, 11, 10, 5, 4, 0, 5),
        210 => (1, 0, 9, 8, 5, 4, 8, 10, 5, 8, 11, 10),
        211 => (10, 3, 11, 1, 3, 10, 9, 5, 4, -1, -1, -1),
        212 => (3, 2, 8, 8, 2, 4, 4, 2, 10, 4, 10, 5),
        213 => (10, 5, 2, 5, 4, 2, 4, 0, 2, -1, -1, -1),
        214 => (5, 4, 9, 8, 3, 0, 10, 1, 2, -1, -1, -1),
        215 => (2, 10, 1, 4, 9, 5, -1, -1, -1, -1, -1, -1),
        216 => (8, 11, 4, 11, 2, 1, 4, 11, 1, 4, 1, 5),
        217 => (0, 5, 4, 1, 5, 0, 2, 3, 11, -1, -1, -1),
        218 => (0, 11, 2, 8, 11, 0, 4, 9, 5, -1, -1, -1),
        219 => (5, 4, 9, 2, 3, 11, -1, -1, -1, -1, -1, -1),
        220 => (4, 8, 5, 8, 3, 5, 3, 1, 5, -1, -1, -1),
        221 => (0, 5, 4, 1, 5, 0, -1, -1, -1, -1, -1, -1),
        222 => (5, 4, 9, 3, 0, 8, -1, -1, -1, -1, -1, -1),
        223 => (5, 4, 9, -1, -1, -1, -1, -1, -1, -1, -1, -1),
        224 => (11, 4, 7, 11, 9, 4, 11, 10, 9, -1, -1, -1),
        225 => (0, 3, 8, 11, 4, 7, 11, 9, 4, 11, 10, 9),
        226 => (11, 10, 7, 10, 1, 0, 7, 10, 0, 7, 0, 4),
        227 => (3, 10, 1, 11, 10, 3, 7, 8, 4, -1, -1, -1),
        228 => (3, 2, 10, 3, 10, 4, 10, 9, 4, 7, 3, 4),
        229 => (9, 2, 10, 0, 2, 9, 8, 4, 7, -1, -1, -1),
        230 => (3, 4, 7, 0, 4, 3, 1, 2, 10, -1, -1, -1),
        231 => (7, 8, 4, 10, 1, 2, -1, -1, -1, -1, -1, -1),
        232 => (7, 11, 4, 4, 11, 9, 9, 11, 2, 9, 2, 1),
        233 => (1, 9, 0, 4, 7, 8, 2, 3, 11, -1, -1, -1),
        234 => (7, 11, 4, 11, 2, 4, 2, 0, 4, -1, -1, -1),
        235 => (4, 7, 8, 2, 3, 11, -1, -1, -1, -1, -1, -1),
        236 => (9, 4, 1, 4, 7, 1, 7, 3, 1, -1, -1, -1),
        237 => (7, 8, 4, 1, 9, 0, -1, -1, -1, -1, -1, -1),
        238 => (3, 4, 7, 0, 4, 3, -1, -1, -1, -1, -1, -1),
        239 => (7, 8, 4, -1, -1, -1, -1, -1, -1, -1, -1, -1),
        240 => (11, 10, 8, 8, 10, 9, -1, -1, -1, -1, -1, -1),
        241 => (0, 3, 9, 3, 11, 9, 11, 10, 9, -1, -1, -1),
        242 => (1, 0, 10, 0, 8, 10, 8, 11, 10, -1, -1, -1),
        243 => (10, 3, 11, 1, 3, 10, -1, -1, -1, -1, -1, -1),
        244 => (3, 2, 8, 2, 10, 8, 10, 9, 8, -1, -1, -1),
        245 => (9, 2, 10, 0, 2, 9, -1, -1, -1, -1, -1, -1),
        246 => (8, 3, 0, 10, 1, 2, -1, -1, -1, -1, -1, -1),
        247 => (2, 10, 1, -1, -1, -1, -1, -1, -1, -1, -1, -1),
        248 => (2, 1, 11, 1, 9, 11, 9, 8, 11, -1, -1, -1),
        249 => (11, 2, 3, 9, 0, 1, -1, -1, -1, -1, -1, -1),
        250 => (11, 0, 8, 2, 0, 11, -1, -1, -1, -1, -1, -1),
        251 => (3, 11, 2, -1, -1, -1, -1, -1, -1, -1, -1, -1),
        252 => (1, 8, 3, 9, 8, 1, -1, -1, -1, -1, -1, -1),
        253 => (1, 9, 0, -1, -1, -1, -1, -1, -1, -1, -1, -1),
        254 => (8, 3, 0, -1, -1, -1, -1, -1, -1, -1, -1, -1),
        _ => (-1, -1, -1, -1, -1, -1, -1, -1, -1, -1, -1, -1),
    }
}

/// Entry `k` of a row.
pub open spec fn row_entry(row: (int, int, int, int, int, int, int, int, int, int, int, int), k: int) -> int {
    if k == 0 {
        row.0
    } else if k == 1 {
        row.1
    } else if k == 2 {
        row.2
    } else if k == 3 {
        row.3
    } else if k == 4 {
        row.4
    } else if k == 5 {
        row.5
    } else if k == 6 {
        row.6
    } else if k == 7 {
        row.7
    } else if k == 8 {
        row.8
    } else if k == 9 {
        row.9
    } else if k == 10 {
        row.10
    } else {
        row.11
    }
}

/// The row of the triangle table for a pattern.
pub fn table_row(index: u8) -> (r: EdgeRow)
    ensures
        r@ == mc_row(index),
{
    proof {
        reveal(mc_row);
    }
    match index {
        0 => EdgeRow(-1, -1, -1, -1, -1, -1, -1, -1, -1, -1, -1, -1),
        1 => EdgeRow(0, 3, 8, -1, -1, -1, -1, -1, -1, -1, -1, -1),
        2 => EdgeRow(0, 9, 1, -1, -1, -1, -1, -1, -1, -1, -1, -1),
        3 => EdgeRow(3, 8, 1, 1, 8, 9, -1, -1, -1, -1, -1, -1),
        4 => EdgeRow(2, 11, 3, -1, -1, -1, -1, -1, -1, -1, -1, -1),
        5 => EdgeRow(8, 0, 11, 11, 0, 2, -1, -1, -1, -1, -1, -1),
        6 => EdgeRow(3, 2, 11, 1, 0, 9, -1, -1, -1, -1, -1, -1),
        7 => EdgeRow(11, 1, 2, 11, 9, 1, 11, 8, 9, -1, -1, -1),
        8 => EdgeRow(1, 10, 2, -1, -1, -1, -1, -1, -1, -1, -1, -1),
        9 => EdgeRow(0, 3, 8, 2, 1, 10, -1, -1, -1, -1, -1, -1),
        10 => EdgeRow(10, 2, 9, 9, 2, 0, -1, -1, -1, -1, -1, -1),
        11 => EdgeRow(8, 2, 3, 8, 10, 2, 8, 9, 10, -1, -1, -1),
        12 => EdgeRow(11, 3, 10, 10, 3, 1, -1, -1, -1, -1, -1, -1),
        13 => EdgeRow(10, 0, 1, 10, 8, 0, 10, 11, 8, -1, -1, -1),
        14 => EdgeRow(9, 3, 0, 9, 11, 3, 9, 10, 11, -1, -1, -1),
        15 => EdgeRow(8, 9, 11, 11, 9, 10, -1, -1, -1, -1, -1, -1),
        16 => EdgeRow(4, 8, 7, -1, -1, -1, -1, -1, -1, -1, -1, -1),
        17 => EdgeRow(7, 4, 3, 3, 4, 0, -1, -1, -1, -1, -1, -1),
        18 => EdgeRow(4, 8, 7, 0, 9, 1, -1, -1, -1, -1, -1, -1),
        19 => EdgeRow(1, 4, 9, 1, 7, 4, 1, 3, 7, -1, -1, -1),
        20 => EdgeRow(8, 7, 4, 11, 3, 2, -1, -1, -1, -1, -1, -1),
        21 => EdgeRow(4, 11, 7, 4, 2, 11, 4, 0, 2, -1, -1, -1),
        22 => EdgeRow(0, 9, 1, 8, 7, 4, 11, 3, 2, -1, -1, -1),
        23 => EdgeRow(7, 4, 11, 11, 4, 2, 2, 4, 9, 2, 9, 1),
        24 => EdgeRow(4, 8, 7, 2, 1, 10, -1, -1, -1, -1, -1, -1),
        25 => EdgeRow(7, 4, 3, 3, 4, 0, 10, 2, 1, -1, -1, -1),
        26 => EdgeRow(10, 2, 9, 9, 2, 0, 7, 4, 8, -1, -1, -1),
        27 => EdgeRow(10, 2, 3, 10, 3, 4, 3, 7, 4, 9, 10, 4),
        28 => EdgeRow(1, 10, 3, 3, 10, 11, 4, 8, 7, -1, -1, -1),
        29 => EdgeRow(10, 11, 1, 11, 7, 4, 1, 11, 4, 1, 4, 0),
        30 => EdgeRow(7, 4, 8, 9, 3, 0, 9, 11, 3, 9, 10, 11),
        31 => EdgeRow(7, 4, 11, 4, 9, 11, 9, 10, 11, -1, -1, -1),
        32 => EdgeRow(9, 4, 5, -1, -1, -1, -1, -1, -1, -1, -1, -1),
        33 => EdgeRow(9, 4, 5, 8, 0, 3, -1, -1, -1, -1, -1, -1),
        34 => EdgeRow(4, 5, 0, 0, 5, 1, -1, -1, -1, -1, -1, -1),
        35 => EdgeRow(5, 8, 4, 5, 3, 8, 5, 1, 3, -1, -1, -1),
        36 => EdgeRow(9, 4, 5, 11, 3, 2, -1, -1, -1, -1, -1, -1),
        37 => EdgeRow(2, 11, 0, 0, 11, 8, 5, 9, 4, -1, -1, -1),
        38 => EdgeRow(4, 5, 0, 0, 5, 1, 11, 3, 2, -1, -1, -1),
        39 => EdgeRow(5, 1, 4, 1, 2, 11, 4, 1, 11, 4, 11, 8),
        40 => EdgeRow(1, 10, 2, 5, 9, 4, -1, -1, -1, -1, -1, -1),
        41 => EdgeRow(9, 4, 5, 0, 3, 8, 2, 1, 10, -1, -1, -1),
        42 => EdgeRow(2, 5, 10, 2, 4, 5, 2, 0, 4, -1, -1, -1),
        43 => EdgeRow(10, 2, 5, 5, 2, 4, 4, 2, 3, 4, 3, 8),
        44 => EdgeRow(11, 3, 10, 10, 3, 1, 4, 5, 9, -1, -1, -1),
        45 => EdgeRow(4, 5, 9, 10, 0, 1, 10, 8, 0, 10, 11, 8),
        46 => EdgeRow(11, 3, 0, 11, 0, 5, 0, 4, 5, 10, 11, 5),
        47 => EdgeRow(4, 5, 8, 5, 10, 8, 10, 11, 8, -1, -1, -1),
        48 => EdgeRow(8, 7, 9, 9, 7, 5, -1, -1, -1, -1, -1, -1),
        49 => EdgeRow(3, 9, 0, 3, 5, 9, 3, 7, 5, -1, -1, -1),
        50 => EdgeRow(7, 0, 8, 7, 1, 0, 7, 5, 1, -1, -1, -1),
        51 => EdgeRow(7, 5, 3, 3, 5, 1, -1, -1, -1, -1, -1, -1),
        52 => EdgeRow(5, 9, 7, 7, 9, 8, 2, 11, 3, -1, -1, -1),
        53 => EdgeRow(2, 11, 7, 2, 7, 9, 7, 5, 9, 0, 2, 9),
        54 => EdgeRow(2, 11, 3, 7, 0, 8, 7, 1, 0, 7, 5, 1),
        55 => EdgeRow(2, 11, 1, 11, 7, 1, 7, 5, 1, -1, -1, -1),
        56 => EdgeRow(8, 7, 9, 9, 7, 5, 2, 1, 10, -1, -1, -1),
        57 => EdgeRow(10, 2, 1, 3, 9, 0, 3, 5, 9, 3, 7, 5),
        58 => EdgeRow(7, 5, 8, 5, 10, 2, 8, 5, 2, 8, 2, 0),
        59 => EdgeRow(10, 2, 5, 2, 3, 5, 3, 7, 5, -1, -1, -1),
        60 => EdgeRow(8, 7, 5, 8, 5, 9, 11, 3, 10, 3, 1, 10),
        61 => EdgeRow(5, 11, 7, 10, 11, 5, 1, 9, 0, -1, -1, -1),
        62 => EdgeRow(11, 5, 10, 7, 5, 11, 8, 3, 0, -1, -1, -1),
        63 => EdgeRow(5, 11, 7, 10, 11, 5, -1, -1, -1, -1, -1, -1),
        64 => EdgeRow(6, 7, 11, -1, -1, -1, -1, -1, -1, -1, -1, -1),
        65 => EdgeRow(7, 11, 6, 3, 8, 0, -1, -1, -1, -1, -1, -1),
        66 => EdgeRow(6, 7, 11, 0, 9, 1, -1, -1, -1, -1, -1, -1),
        67 => EdgeRow(9, 1, 8, 8, 1, 3, 6, 7, 11, -1, -1, -1),
        68 => EdgeRow(3, 2, 7, 7, 2, 6, -1, -1, -1, -1, -1, -1),
        69 => EdgeRow(0, 7, 8, 0, 6, 7, 0, 2, 6, -1, -1, -1),
        70 => EdgeRow(6, 7, 2, 2, 7, 3, 9, 1, 0, -1, -1, -1),
        71 => EdgeRow(6, 7, 8, 6, 8, 1, 8, 9, 1, 2, 6, 1),
        72 => EdgeRow(11, 6, 7, 10, 2, 1, -1, -1, -1, -1, -1, -1),
        73 => EdgeRow(3, 8, 0, 11, 6, 7, 10, 2, 1, -1, -1, -1),
        74 => EdgeRow(0, 9, 2, 2, 9, 10, 7, 11, 6, -1, -1, -1),
        75 => EdgeRow(6, 7, 11, 8, 2, 3, 8, 10, 2, 8, 9, 10),
        76 => EdgeRow(7, 10, 6, 7, 1, 10, 7, 3, 1, -1, -1, -1),
        77 => EdgeRow(8, 0, 7, 7, 0, 6, 6, 0, 1, 6, 1, 10),
        78 => EdgeRow(7, 3, 6, 3, 0, 9, 6, 3, 9, 6, 9, 10),
        79 => EdgeRow(6, 7, 10, 7, 8, 10, 8, 9, 10, -1, -1, -1),
        80 => EdgeRow(11, 6, 8, 8, 6, 4, -1, -1, -1, -1, -1, -1),
        81 => EdgeRow(6, 3, 11, 6, 0, 3, 6, 4, 0, -1, -1, -1),
        82 => EdgeRow(11, 6, 8, 8, 6, 4, 1, 0, 9, -1, -1, -1),
        83 => EdgeRow(1, 3, 9, 3, 11, 6, 9, 3, 6, 9, 6, 4),
        84 => EdgeRow(2, 8, 3, 2, 4, 8, 2, 6, 4, -1, -1, -1),
        85 => EdgeRow(4, 0, 6, 6, 0, 2, -1, -1, -1, -1, -1, -1),
        86 => EdgeRow(9, 1, 0, 2, 8, 3, 2, 4, 8, 2, 6, 4),
        87 => EdgeRow(9, 1, 4, 1, 2, 4, 2, 6, 4, -1, -1, -1),
        88 => EdgeRow(4, 8, 6, 6, 8, 11, 1, 10, 2, -1, -1, -1),
        89 => EdgeRow(1, 10, 2, 6, 3, 11, 6, 0, 3, 6, 4, 0),
        90 => EdgeRow(11, 6, 4, 11, 4, 8, 10, 2, 9, 2, 0, 9),
        91 => EdgeRow(10, 4, 9, 6, 4, 10, 11, 2, 3, -1, -1, -1),
        92 => EdgeRow(4, 8, 3, 4, 3, 10, 3, 1, 10, 6, 4, 10),
        93 => EdgeRow(1, 10, 0, 10, 6, 0, 6, 4, 0, -1, -1, -1),
        94 => EdgeRow(4, 10, 6, 9, 10, 4, 0, 8, 3, -1, -1, -1),
        95 => EdgeRow(4, 10, 6, 9, 10, 4, -1, -1, -1, -1, -1, -1),
        96 => EdgeRow(6, 7, 11, 4, 5, 9, -1, -1, -1, -1, -1, -1),
        97 => EdgeRow(4, 5, 9, 7, 11, 6, 3, 8, 0, -1, -1, -1),
        98 => EdgeRow(1, 0, 5, 5, 0, 4, 11, 6, 7, -1, -1, -1),
        99 => EdgeRow(11, 6, 7, 5, 8, 4, 5, 3, 8, 5, 1, 3),
        100 => EdgeRow(3, 2, 7, 7, 2, 6, 9, 4, 5, -1, -1, -1),
        101 => EdgeRow(5, 9, 4, 0, 7, 8, 0, 6, 7, 0, 2, 6),
        102 => EdgeRow(3, 2, 6, 3, 6, 7, 1, 0, 5, 0, 4, 5),
        103 => EdgeRow(6, 1, 2, 5, 1, 6, 4, 7, 8, -1, -1, -1),
        104 => EdgeRow(10, 2, 1, 6, 7, 11, 4, 5, 9, -1, -1, -1),
        105 => EdgeRow(0, 3, 8, 4, 5, 9, 11, 6, 7, 10, 2, 1),
        106 => EdgeRow(7, 11, 6, 2, 5, 10, 2, 4, 5, 2, 0, 4),
        107 => EdgeRow(8, 4, 7, 5, 10, 6, 3, 11, 2, -1, -1, -1),
        108 => EdgeRow(9, 4, 5, 7, 10, 6, 7, 1, 10, 7, 3, 1),
        109 => EdgeRow(10, 6, 5, 7, 8, 4, 1, 9, 0, -1, -1, -1),
        110 => EdgeRow(4, 3, 0, 7, 3, 4, 6, 5, 10, -1, -1, -1),
        111 => EdgeRow(10, 6, 5, 8, 4, 7, -1, -1, -1, -1, -1, -1),
        112 => EdgeRow(9, 6, 5, 9, 11, 6, 9, 8, 11, -1, -1, -1),
        113 => EdgeRow(11, 6, 3, 3, 6, 0, 0, 6, 5, 0, 5, 9),
        114 => EdgeRow(11, 6, 5, 11, 5, 0, 5, 1, 0, 8, 11, 0),
        115 => EdgeRow(11, 6, 3, 6, 5, 3, 5, 1, 3, -1, -1, -1),
        116 => EdgeRow(9, 8, 5, 8, 3, 2, 5, 8, 2, 5, 2, 6),
        117 => EdgeRow(5, 9, 6, 9, 0, 6, 0, 2, 6, -1, -1, -1),
        118 => EdgeRow(1, 6, 5, 2, 6, 1, 3, 0, 8, -1, -1, -1),
        119 => EdgeRow(1, 6, 5, 2, 6, 1, -1, -1, -1, -1, -1, -1),
        120 => EdgeRow(2, 1, 10, 9, 6, 5, 9, 11, 6, 9, 8, 11),
        121 => EdgeRow(9, 0, 1, 3, 11, 2, 5, 10, 6, -1, -1, -1),
        122 => EdgeRow(11, 0, 8, 2, 0, 11, 10, 6, 5, -1, -1, -1),
        123 => EdgeRow(3, 11, 2, 5, 10, 6, -1, -1, -1, -1, -1, -1),
        124 => EdgeRow(1, 8, 3, 9, 8, 1, 5, 10, 6, -1, -1, -1),
        125 => EdgeRow(6, 5, 10, 0, 1, 9, -1, -1, -1, -1, -1, -1),
        126 => EdgeRow(8, 3, 0, 5, 10, 6, -1, -1, -1, -1, -1, -1),
        127 => EdgeRow(6, 5, 10, -1, -1, -1, -1, -1, -1, -1, -1, -1),
        128 => EdgeRow(10, 5, 6, -1, -1, -1, -1, -1, -1, -1, -1, -1),
        129 => EdgeRow(0, 3, 8, 6, 10, 5, -1, -1, -1, -1, -1, -1),
        130 => EdgeRow(10, 5, 6, 9, 1, 0, -1, -1, -1, -1, -1, -1),
        131 => EdgeRow(3, 8, 1, 1, 8, 9, 6, 10, 5, -1, -1, -1),
        132 => EdgeRow(2, 11, 3, 6, 10, 5, -1, -1, -1, -1, -1, -1),
        133 => EdgeRow(8, 0, 11, 11, 0, 2, 5, 6, 10, -1, -1, -1),
        134 => EdgeRow(1, 0, 9, 2, 11, 3, 6, 10, 5, -1, -1, -1),
        135 => EdgeRow(5, 6, 10, 11, 1, 2, 11, 9, 1, 11, 8, 9),
        136 => EdgeRow(5, 6, 1, 1, 6, 2, -1, -1, -1, -1, -1, -1),
        137 => EdgeRow(5, 6, 1, 1, 6, 2, 8, 0, 3, -1, -1, -1),
        138 => EdgeRow(6, 9, 5, 6, 0, 9, 6, 2, 0, -1, -1, -1),
        139 => EdgeRow(6, 2, 5, 2, 3, 8, 5, 2, 8, 5, 8, 9),
        140 => EdgeRow(3, 6, 11, 3, 5, 6, 3, 1, 5, -1, -1, -1),
        141 => EdgeRow(8, 0, 1, 8, 1, 6, 1, 5, 6, 11, 8, 6),
        142 => EdgeRow(11, 3, 6, 6, 3, 5, 5, 3, 0, 5, 0, 9),
        143 => EdgeRow(5, 6, 9, 6, 11, 9, 11, 8, 9, -1, -1, -1),
        144 => EdgeRow(5, 6, 10, 7, 4, 8, -1, -1, -1, -1, -1, -1),
        145 => EdgeRow(0, 3, 4, 4, 3, 7, 10, 5, 6, -1, -1, -1),
        146 => EdgeRow(5, 6, 10, 4, 8, 7, 0, 9, 1, -1, -1, -1),
        147 => EdgeRow(6, 10, 5, 1, 4, 9, 1, 7, 4, 1, 3, 7),
        148 => EdgeRow(7, 4, 8, 6, 10, 5, 2, 11, 3, -1, -1, -1),
        149 => EdgeRow(10, 5, 6, 4, 11, 7, 4, 2, 11, 4, 0, 2),
        150 => EdgeRow(4, 8, 7, 6, 10, 5, 3, 2, 11, 1, 0, 9),
        151 => EdgeRow(1, 2, 10, 11, 7, 6, 9, 5, 4, -1, -1, -1),
        152 => EdgeRow(2, 1, 6, 6, 1, 5, 8, 7, 4, -1, -1, -1),
        153 => EdgeRow(0, 3, 7, 0, 7, 4, 2, 1, 6, 1, 5, 6),
        154 => EdgeRow(8, 7, 4, 6, 9, 5, 6, 0, 9, 6, 2, 0),
        155 => EdgeRow(7, 2, 3, 6, 2, 7, 5, 4, 9, -1, -1, -1),
        156 => EdgeRow(4, 8, 7, 3, 6, 11, 3, 5, 6, 3, 1, 5),
        157 => EdgeRow(5, 0, 1, 4, 0, 5, 7, 6, 11, -1, -1, -1),
        158 => EdgeRow(9, 5, 4, 6, 11, 7, 0, 8, 3, -1, -1, -1),
        159 => EdgeRow(11, 7, 6, 9, 5, 4, -1, -1, -1, -1, -1, -1),
        160 => EdgeRow(6, 10, 4, 4, 10, 9, -1, -1, -1, -1, -1, -1),
        161 => EdgeRow(6, 10, 4, 4, 10, 9, 3, 8, 0, -1, -1, -1),
        162 => EdgeRow(0, 10, 1, 0, 6, 10, 0, 4, 6, -1, -1, -1),
        163 => EdgeRow(6, 10, 1, 6, 1, 8, 1, 3, 8, 4, 6, 8),
        164 => EdgeRow(9, 4, 10, 10, 4, 6, 3, 2, 11, -1, -1, -1),
        165 => EdgeRow(2, 11, 8, 2, 8, 0, 6, 10, 4, 10, 9, 4),
        166 => EdgeRow(11, 3, 2, 0, 10, 1, 0, 6, 10, 0, 4, 6),
        167 => EdgeRow(6, 8, 4, 11, 8, 6, 2, 10, 1, -1, -1, -1),
        168 => EdgeRow(4, 1, 9, 4, 2, 1, 4, 6, 2, -1, -1, -1),
        169 => EdgeRow(3, 8, 0, 4, 1, 9, 4, 2, 1, 4, 6, 2),
        170 => EdgeRow(6, 2, 4, 4, 2, 0, -1, -1, -1, -1, -1, -1),
        171 => EdgeRow(3, 8, 2, 8, 4, 2, 4, 6, 2, -1, -1, -1),
        172 => EdgeRow(4, 6, 9, 6, 11, 3, 9, 6, 3, 9, 3, 1),
        173 => EdgeRow(8, 6, 11, 4, 6, 8, 9, 0, 1, -1, -1, -1),
        174 => EdgeRow(11, 3, 6, 3, 0, 6, 0, 4, 6, -1, -1, -1),
        175 => EdgeRow(8, 6, 11, 4, 6, 8, -1, -1, -1, -1, -1, -1),
        176 => EdgeRow(10, 7, 6, 10, 8, 7, 10, 9, 8, -1, -1, -1),
        177 => EdgeRow(3, 7, 0, 7, 6, 10, 0, 7, 10, 0, 10, 9),
        178 => EdgeRow(6, 10, 7, 7, 10, 8, 8, 10, 1, 8, 1, 0),
        179 => EdgeRow(6, 10, 7, 10, 1, 7, 1, 3, 7, -1, -1, -1),
        180 => EdgeRow(3, 2, 11, 10, 7, 6, 10, 8, 7, 10, 9, 8),
        181 => EdgeRow(2, 9, 0, 10, 9, 2, 6, 11, 7, -1, -1, -1),
        182 => EdgeRow(0, 8, 3, 7, 6, 11, 1, 2, 10, -1, -1, -1),
        183 => EdgeRow(7, 6, 11, 1, 2, 10, -1, -1, -1, -1, -1, -1),
        184 => EdgeRow(2, 1, 9, 2, 9, 7, 9, 8, 7, 6, 2, 7),
        185 => EdgeRow(2, 7, 6, 3, 7, 2, 0, 1, 9, -1, -1, -1),
        186 => EdgeRow(8, 7, 0, 7, 6, 0, 6, 2, 0, -1, -1, -1),
        187 => EdgeRow(7, 2, 3, 6, 2, 7, -1, -1, -1, -1, -1, -1),
        188 => EdgeRow(8, 1, 9, 3, 1, 8, 11, 7, 6, -1, -1, -1),
        189 => EdgeRow(11, 7, 6, 1, 9, 0, -1, -1, -1, -1, -1, -1),
        190 => EdgeRow(6, 11, 7, 0, 8, 3, -1, -1, -1, -1, -1, -1),
        191 => EdgeRow(11, 7, 6, -1, -1, -1, -1, -1, -1, -1, -1, -1),
        192 => EdgeRow(7, 11, 5, 5, 11, 10, -1, -1, -1, -1, -1, -1),
        193 => EdgeRow(10, 5, 11, 11, 5, 7, 0, 3, 8, -1, -1, -1),
        194 => EdgeRow(7, 11, 5, 5, 11, 10, 0, 9, 1, -1, -1, -1),
        195 => EdgeRow(7, 11, 10, 7, 10, 5, 3, 8, 1, 8, 9, 1),
        196 => EdgeRow(5, 2, 10, 5, 3, 2, 5, 7, 3, -1, -1, -1),
        197 => EdgeRow(5, 7, 10, 7, 8, 0, 10, 7, 0, 10, 0, 2),
        198 => EdgeRow(0, 9, 1, 5, 2, 10, 5, 3, 2, 5, 7, 3),
        199 => EdgeRow(9, 7, 8, 5, 7, 9, 10, 1, 2, -1, -1, -1),
        200 => EdgeRow(1, 11, 2, 1, 7, 11, 1, 5, 7, -1, -1, -1),
        201 => EdgeRow(8, 0, 3, 1, 11, 2, 1, 7, 11, 1, 5, 7),
        202 => EdgeRow(7, 11, 2, 7, 2, 9, 2, 0, 9, 5, 7, 9),
        203 => EdgeRow(7, 9, 5, 8, 9, 7, 3, 11, 2, -1, -1, -1),
        204 => EdgeRow(3, 1, 7, 7, 1, 5, -1, -1, -1, -1, -1, -1),
        205 => EdgeRow(8, 0, 7, 0, 1, 7, 1, 5, 7, -1, -1, -1),
        206 => EdgeRow(0, 9, 3, 9, 5, 3, 5, 7, 3, -1, -1, -1),
        207 => EdgeRow(9, 7, 8, 5, 7, 9, -1, -1, -1, -1, -1, -1),
        208 => EdgeRow(8, 5, 4, 8, 10, 5, 8, 11, 10, -1, -1, -1),
        209 => EdgeRow(0, 3, 11, 0, 11, 5, 11, 10, 5, 4, 0, 5),
        210 => EdgeRow(1, 0, 9, 8, 5, 4, 8, 10, 5, 8, 11, 10),
        211 => EdgeRow(10, 3, 11, 1, 3, 10, 9, 5, 4, -1, -1, -1),
        212 => EdgeRow(3, 2, 8, 8, 2, 4, 4, 2, 10, 4, 10, 5),
        213 => EdgeRow(10, 5, 2, 5, 4, 2, 4, 0, 2, -1, -1, -1),
        214 => EdgeRow(5, 4, 9, 8, 3, 0, 10, 1, 2, -1, -1, -1),
        215 => EdgeRow(2, 10, 1, 4, 9, 5, -1, -1, -1, -1, -1, -1),
        216 => EdgeRow(8, 11, 4, 11, 2, 1, 4, 11, 1, 4, 1, 5),
        217 => EdgeRow(0, 5, 4, 1, 5, 0, 2, 3, 11, -1, -1, -1),
        218 => EdgeRow(0, 11, 2, 8, 11, 0, 4, 9, 5, -1, -1, -1),
        219 => EdgeRow(5, 4, 9, 2, 3, 11, -1, -1, -1, -1, -1, -1),
        220 => EdgeRow(4, 8, 5, 8, 3, 5, 3, 1, 5, -1, -1, -1),
        221 => EdgeRow(0, 5, 4, 1, 5, 0, -1, -1, -1, -1, -1, -1),
        222 => EdgeRow(5, 4, 9, 3, 0, 8, -1, -1, -1, -1, -1, -1),
        223 => EdgeRow(5, 4, 9, -1, -1, -1, -1, -1, -1, -1, -1, -1),
        224 => EdgeRow(11, 4, 7, 11, 9, 4, 11, 10, 9, -1, -1, -1),
        225 => EdgeRow(0, 3, 8, 11, 4, 7, 11, 9, 4, 11, 10, 9),
        226 => EdgeRow(11, 10, 7, 10, 1, 0, 7, 10, 0, 7, 0, 4),
        227 => EdgeRow(3, 10, 1, 11, 10, 3, 7, 8, 4, -1, -1, -1),
        228 => EdgeRow(3, 2, 10, 3, 10, 4, 10, 9, 4, 7, 3, 4),
        229 => EdgeRow(9, 2, 10, 0, 2, 9, 8, 4, 7, -1, -1, -1),
        230 => EdgeRow(3, 4, 7, 0, 4, 3, 1, 2, 10, -1, -1, -1),
        231 => EdgeRow(7, 8, 4, 10, 1, 2, -1, -1, -1, -1, -1, -1),
        232 => EdgeRow(7, 11, 4, 4, 11, 9, 9, 11, 2, 9, 2, 1),
        233 => EdgeRow(1, 9, 0, 4, 7, 8, 2, 3, 11, -1, -1, -1),
        234 => EdgeRow(7, 11, 4, 11, 2, 4, 2, 0, 4, -1, -1, -1),
        235 => EdgeRow(4, 7, 8, 2, 3, 11, -1, -1, -1, -1, -1, -1),
        236 => EdgeRow(9, 4, 1, 4, 7, 1, 7, 3, 1, -1, -1, -1),
        237 => EdgeRow(7, 8, 4, 1, 9, 0, -1, -1, -1, -1, -1, -1),
        238 => EdgeRow(3, 4, 7, 0, 4, 3, -1, -1, -1, -1, -1, -1),
        239 => EdgeRow(7, 8, 4, -1, -1, -1, -1, -1, -1, -1, -1, -1),
        240 => EdgeRow(11, 10, 8, 8, 10, 9, -1, -1, -1, -1, -1, -1),
        241 => EdgeRow(0, 3, 9, 3, 11, 9, 11, 10, 9, -1, -1, -1),
        242 => EdgeRow(1, 0, 10, 0, 8, 10, 8, 11, 10, -1, -1, -1),
        243 => EdgeRow(10, 3, 11, 1, 3, 10, -1, -1, -1, -1, -1, -1),
        244 => EdgeRow(3, 2, 8, 2, 10, 8, 10, 9, 8, -1, -1, -1),
        245 => EdgeRow(9, 2, 10, 0, 2, 9, -1, -1, -1, -1, -1, -1),
        246 => EdgeRow(8, 3, 0, 10, 1, 2, -1, -1, -1, -1, -1, -1),
        247 => EdgeRow(2, 10, 1, -1, -1, -1, -1, -1, -1, -1, -1, -1),
        248 => EdgeRow(2, 1, 11, 1, 9, 11, 9, 8, 11, -1, -1, -1),
        249 => EdgeRow(11, 2, 3, 9, 0, 1, -1, -1, -1, -1, -1, -1),
        250 => EdgeRow(11, 0, 8, 2, 0, 11, -1, -1, -1, -1, -1, -1),
        251 => EdgeRow(3, 11, 2, -1, -1, -1, -1, -1, -1, -1, -1, -1),
        252 => EdgeRow(1, 8, 3, 9, 8, 1, -1, -1, -1, -1, -1, -1),
        253 => EdgeRow(1, 9, 0, -1, -1, -1, -1, -1, -1, -1, -1, -1),
        254 => EdgeRow(8, 3, 0, -1, -1, -1, -1, -1, -1, -1, -1, -1),
        _ => EdgeRow(-1, -1, -1, -1, -1, -1, -1, -1, -1, -1, -1, -1),
    }
}

/// Entry `k` of a row.
pub fn row_entry_at(row: &EdgeRow, k: usize) -> (r: i8)
    requires
        k < 12,
    ensures
        r as int == row_entry(row@, k as int),
{
    match k {
        0 => row.0,
        1 => row.1,
        2 => row.2,
        3 => row.3,
        4 => row.4,
        5 => row.5,
        6 => row.6,
        7 => row.7,
        8 => row.8,
        9 => row.9,
        10 => row.10,
        _ => row.11,
    }
}

// ── What every row of the table satisfies ────────────────────────────────────

/// Edge `e` joins a corner above the surface to one that is not.
pub open spec fn edge_crosses(index: int, e: int) -> bool {
    &&& 0 <= e < 12
    &&& corner_bit(index, edge_ends(e).0) != corner_bit(index, edge_ends(e).1)
}

/// How many triangles the pattern `index` has: the row's entries before the
/// first `-1`, by three.
pub open spec fn triangle_count(index: u8) -> nat {
    let row = mc_row(index);
    if row.0 == -1 {
        0
    } else if row.3 == -1 {
        1
    } else if row.6 == -1 {
        2
    } else if row.9 == -1 {
        3
    } else {
        4
    }
}

pub open spec fn entry_ok(index: u8, k: int) -> bool {
    if k < 3 * triangle_count(index) {
        edge_crosses(index as int, row_entry(mc_row(index), k))
    } else {
        row_entry(mc_row(index), k) == -1
    }
}

pub open spec fn row_has(index: u8, e: int) -> bool {
    let row = mc_row(index);
    row.0 == e || row.1 == e || row.2 == e || row.3 == e || row.4 == e || row.5 == e || row.6 == e || row.7 == e
        || row.8 == e || row.9 == e || row.10 == e || row.11 == e
}

pub open spec fn covered(index: u8, e: int) -> bool {
    edge_crosses(index as int, e) ==> row_has(index, e)
}

pub open spec fn row_ok(index: u8) -> bool {
    &&& entry_ok(index, 0) && entry_ok(index, 1) && entry_ok(index, 2) && entry_ok(index, 3)
    &&& entry_ok(index, 4) && entry_ok(index, 5) && entry_ok(index, 6) && entry_ok(index, 7)
    &&& entry_ok(index, 8) && entry_ok(index, 9) && entry_ok(index, 10) && entry_ok(index, 11)
    &&& covered(index, 0) && covered(index, 1) && covered(index, 2) && covered(index, 3)
    &&& covered(index, 4) && covered(index, 5) && covered(index, 6) && covered(index, 7)
    &&& covered(index, 8) && covered(index, 9) && covered(index, 10) && covered(index, 11)
    &&& (triangle_count(index) == 0) == (index == 0 || index == 255)
}

proof fn lemma_rows_0_to_31(index: u8)
    requires
        0 <= index <= 31,
    ensures
        row_ok(index),
{
    reveal(mc_row);
    match index {
        0 => assert(row_ok(0)),
        1 => assert(row_ok(1)),
        2 => assert(row_ok(2)),
        3 => assert(row_ok(3)),
        4 => assert(row_ok(4)),
        5 => assert(row_ok(5)),
        6 => assert(row_ok(6)),
        7 => assert(row_ok(7)),
        8 => assert(row_ok(8)),
        9 => assert(row_ok(9)),
        10 => assert(row_ok(10)),
        11 => assert(row_ok(11)),
        12 => assert(row_ok(12)),
        13 => assert(row_ok(13)),
        14 => assert(row_ok(14)),
        15 => assert(row_ok(15)),
        16 => assert(row_ok(16)),
        17 => assert(row_ok(17)),
        18 => assert(row_ok(18)),
        19 => assert(row_ok(19)),
        20 => assert(row_ok(20)),
        21 => assert(row_ok(21)),
        22 => assert(row_ok(22)),
        23 => assert(row_ok(23)),
        24 => assert(row_ok(24)),
        25 => assert(row_ok(25)),
        26 => assert(row_ok(26)),
        27 => assert(row_ok(27)),
        28 => assert(row_ok(28)),
        29 => assert(row_ok(29)),
        30 => assert(row_ok(30)),
        31 => assert(row_ok(31)),
        _ => {},
    }
}

proof fn lemma_rows_32_to_63(index: u8)
    requires
        32 <= index <= 63,
    ensures
        row_ok(index),
{
    reveal(mc_row);
    match index {
        32 => assert(row_ok(32)),
        33 => assert(row_ok(33)),
        34 => assert(row_ok(34)),
        35 => assert(row_ok(35)),
        36 => assert(row_ok(36)),
        37 => assert(row_ok(37)),
        38 => assert(row_ok(38)),
        39 => assert(row_ok(39)),
        40 => assert(row_ok(40)),
        41 => assert(row_ok(41)),
        42 => assert(row_ok(42)),
        43 => assert(row_ok(43)),
        44 => assert(row_ok(44)),
        45 => assert(row_ok(45)),
        46 => assert(row_ok(46)),
        47 => assert(row_ok(47)),
        48 => assert(row_ok(48)),
        49 => assert(row_ok(49)),
        50 => assert(row_ok(50)),
        51 => assert(row_ok(51)),
        52 => assert(row_ok(52)),
        53 => assert(row_ok(53)),
        54 => assert(row_ok(54)),
        55 => assert(row_ok(55)),
        56 => assert(row_ok(56)),
        57 => assert(row_ok(57)),
        58 => assert(row_ok(58)),
        59 => assert(row_ok(59)),
        60 => assert(row_ok(60)),
        61 => assert(row_ok(61)),
        62 => assert(row_ok(62)),
        63 => assert(row_ok(63)),
        _ => {},
    }
}

proof fn lemma_rows_64_to_95(index: u8)
    requires
        64 <= index <= 95,
    ensures
        row_ok(index),
{
    reveal(mc_row);
    match index {
        64 => assert(row_ok(64)),
        65 => assert(row_ok(65)),
        66 => assert(row_ok(66)),
        67 => assert(row_ok(67)),
        68 => assert(row_ok(68)),
        69 => assert(row_ok(69)),
        70 => assert(row_ok(70)),
        71 => assert(row_ok(71)),
        72 => assert(row_ok(72)),
        73 => assert(row_ok(73)),
        74 => assert(row_ok(74)),
        75 => assert(row_ok(75)),
        76 => assert(row_ok(76)),
        77 => assert(row_ok(77)),
        78 => assert(row_ok(78)),
        79 => assert(row_ok(79)),
        80 => assert(row_ok(80)),
        81 => assert(row_ok(81)),
        82 => assert(row_ok(82)),
        83 => assert(row_ok(83)),
        84 => assert(row_ok(84)),
        85 => assert(row_ok(85)),
        86 => assert(row_ok(86)),
        87 => assert(row_ok(87)),
        88 => assert(row_ok(88)),
        89 => assert(row_ok(89)),
        90 => assert(row_ok(90)),
        91 => assert(row_ok(91)),
        92 => assert(row_ok(92)),
        93 => assert(row_ok(93)),
        94 => assert(row_ok(94)),
        95 => assert(row_ok(95)),
        _ => {},
    }
}

proof fn lemma_rows_96_to_127(index: u8)
    requires
        96 <= index <= 127,
    ensures
        row_ok(index),
{
    reveal(mc_row);
    match index {
        96 => assert(row_ok(96)),
        97 => assert(row_ok(97)),
        98 => assert(row_ok(98)),
        99 => assert(row_ok(99)),
        100 => assert(row_ok(100)),
        101 => assert(row_ok(101)),
        102 => assert(row_ok(102)),
        103 => assert(row_ok(103)),
        104 => assert(row_ok(104)),
        105 => assert(row_ok(105)),
        106 => assert(row_ok(106)),
        107 => assert(row_ok(107)),
        108 => assert(row_ok(108)),
        109 => assert(row_ok(109)),
        110 => assert(row_ok(110)),
        111 => assert(row_ok(111)),
        112 => assert(row_ok(112)),
        113 => assert(row_ok(113)),
        114 => assert(row_ok(114)),
        115 => assert(row_ok(115)),
        116 => assert(row_ok(116)),
        117 => assert(row_ok(117)),
        118 => assert(row_ok(118)),
        119 => assert(row_ok(119)),
        120 => assert(row_ok(120)),
        121 => assert(row_ok(121)),
        122 => assert(row_ok(122)),
        123 => assert(row_ok(123)),
        124 => assert(row_ok(124)),
        125 => assert(row_ok(125)),
        126 => assert(row_ok(126)),
        127 => assert(row_ok(127)),
        _ => {},
    }
}

proof fn lemma_rows_128_to_159(index: u8)
    requires
        128 <= index <= 159,
    ensures
        row_ok(index),
{
    reveal(mc_row);
    match index {
        128 => assert(row_ok(128)),
        129 => assert(row_ok(129)),
        130 => assert(row_ok(130)),
        131 => assert(row_ok(131)),
        132 => assert(row_ok(132)),
        133 => assert(row_ok(133)),
        134 => assert(row_ok(134)),
        135 => assert(row_ok(135)),
        136 => assert(row_ok(136)),
        137 => assert(row_ok(137)),
        138 => assert(row_ok(138)),
        139 => assert(row_ok(139)),
        140 => assert(row_ok(140)),
        141 => assert(row_ok(141)),
        142 => assert(row_ok(142)),
        143 => assert(row_ok(143)),
        144 => assert(row_ok(144)),
        145 => assert(row_ok(145)),
        146 => assert(row_ok(146)),
        147 => assert(row_ok(147)),
        148 => assert(row_ok(148)),
        149 => assert(row_ok(149)),
        150 => assert(row_ok(150)),
        151 => assert(row_ok(151)),
        152 => assert(row_ok(152)),
        153 => assert(row_ok(153)),
        154 => assert(row_ok(154)),
        155 => assert(row_ok(155)),
        156 => assert(row_ok(156)),
        157 => assert(row_ok(157)),
        158 => assert(row_ok(158)),
        159 => assert(row_ok(159)),
        _ => {},
    }
}

proof fn lemma_rows_160_to_191(index: u8)
    requires
        160 <= index <= 191,
    ensures
        row_ok(index),
{
    reveal(mc_row);
    match index {
        160 => assert(row_ok(160)),
        161 => assert(row_ok(161)),
        162 => assert(row_ok(162)),
        163 => assert(row_ok(163)),
        164 => assert(row_ok(164)),
        165 => assert(row_ok(165)),
        166 => assert(row_ok(166)),
        167 => assert(row_ok(167)),
        168 => assert(row_ok(168)),
        169 => assert(row_ok(169)),
        170 => assert(row_ok(170)),
        171 => assert(row_ok(171)),
        172 => assert(row_ok(172)),
        173 => assert(row_ok(173)),
        174 => assert(row_ok(174)),
        175 => assert(row_ok(175)),
        176 => assert(row_ok(176)),
        177 => assert(row_ok(177)),
        178 => assert(row_ok(178)),
        179 => assert(row_ok(179)),
        180 => assert(row_ok(180)),
        181 => assert(row_ok(181)),
        182 => assert(row_ok(182)),
        183 => assert(row_ok(183)),
        184 => assert(row_ok(184)),
        185 => assert(row_ok(185)),
        186 => assert(row_ok(186)),
        187 => assert(row_ok(187)),
        188 => assert(row_ok(188)),
        189 => assert(row_ok(189)),
        190 => assert(row_ok(190)),
        191 => assert(row_ok(191)),
        _ => {},
    }
}

proof fn lemma_rows_192_to_223(index: u8)
    requires
        192 <= index <= 223,
    ensures
        row_ok(index),
{
    reveal(mc_row);
    match index {
        192 => assert(row_ok(192)),
        193 => assert(row_ok(193)),
        194 => assert(row_ok(194)),
        195 => assert(row_ok(195)),
        196 => assert(row_ok(196)),
        197 => assert(row_ok(197)),
        198 => assert(row_ok(198)),
        199 => assert(row_ok(199)),
        200 => assert(row_ok(200)),
        201 => assert(row_ok(201)),
        202 => assert(row_ok(202)),
        203 => assert(row_ok(203)),
        204 => assert(row_ok(204)),
        205 => assert(row_ok(205)),
        206 => assert(row_ok(206)),
        207 => assert(row_ok(207)),
        208 => assert(row_ok(208)),
        209 => assert(row_ok(209)),
        210 => assert(row_ok(210)),
        211 => assert(row_ok(211)),
        212 => assert(row_ok(212)),
        213 => assert(row_ok(213)),
        214 => assert(row_ok(214)),
        215 => assert(row_ok(215)),
        216 => assert(row_ok(216)),
        217 => assert(row_ok(217)),
        218 => assert(row_ok(218)),
        219 => assert(row_ok(219)),
        220 => assert(row_ok(220)),
        221 => assert(row_ok(221)),
        222 => assert(row_ok(222)),
        223 => assert(row_ok(223)),
        _ => {},
    }
}

proof fn lemma_rows_224_to_255(index: u8)
    requires
        224 <= index <= 255,
    ensures
        row_ok(index),
{
    reveal(mc_row);
    match index {
        224 => assert(row_ok(224)),
        225 => assert(row_ok(225)),
        226 => assert(row_ok(226)),
        227 => assert(row_ok(227)),
        228 => assert(row_ok(228)),
        229 => assert(row_ok(229)),
        230 => assert(row_ok(230)),
        231 => assert(row_ok(231)),
        232 => assert(row_ok(232)),
        233 => assert(row_ok(233)),
        234 => assert(row_ok(234)),
        235 => assert(row_ok(235)),
        236 => assert(row_ok(236)),
        237 => assert(row_ok(237)),
        238 => assert(row_ok(238)),
        239 => assert(row_ok(239)),
        240 => assert(row_ok(240)),
        241 => assert(row_ok(241)),
        242 => assert(row_ok(242)),
        243 => assert(row_ok(243)),
        244 => assert(row_ok(244)),
        245 => assert(row_ok(245)),
        246 => assert(row_ok(246)),
        247 => assert(row_ok(247)),
        248 => assert(row_ok(248)),
        249 => assert(row_ok(249)),
        250 => assert(row_ok(250)),
        251 => assert(row_ok(251)),
        252 => assert(row_ok(252)),
        253 => assert(row_ok(253)),
        254 => assert(row_ok(254)),
        255 => assert(row_ok(255)),
        _ => {},
    }
}

proof fn lemma_row_ok(index: u8)
    ensures
        row_ok(index),
{
    if index < 32 {
        lemma_rows_0_to_31(index);
    } else if index < 64 {
        lemma_rows_32_to_63(index);
    } else if index < 96 {
        lemma_rows_64_to_95(index);
    } else if index < 128 {
        lemma_rows_96_to_127(index);
    } else if index < 160 {
        lemma_rows_128_to_159(index);
    } else if index < 192 {
        lemma_rows_160_to_191(index);
    } else if index < 224 {
        lemma_rows_192_to_223(index);
    } else {
        lemma_rows_224_to_255(index);
    }
}

/// In every pattern, the triangles use only edges that join a corner above
/// the surface to one that is not, and every such edge is used by some
/// triangle; after the triangles the row holds `-1`; and a cell has no
/// triangle exactly when all its corners are on one side.
pub proof fn law_triangles_on_crossing_edges(index: u8)
    ensures
        forall|k: int|
            0 <= k < 3 * triangle_count(index) ==> #[trigger] edge_crosses(index as int, row_entry(mc_row(index), k)),
        forall|e: int|
            #[trigger] edge_crosses(index as int, e) ==> exists|k: int|
                0 <= k < 3 * triangle_count(index) && row_entry(mc_row(index), k) == e,
        forall|k: int| 3 * triangle_count(index) <= k < 12 ==> #[trigger] row_entry(mc_row(index), k) == -1,
        (triangle_count(index) == 0) == (index == 0 || index == 255),
{
    lemma_row_ok(index);
    assert forall|k: int| 0 <= k < 12 implies #[trigger] entry_ok(index, k) by {
        assert(k == 0 || k == 1 || k == 2 || k == 3 || k == 4 || k == 5 || k == 6 || k == 7 || k == 8 || k == 9
            || k == 10 || k == 11);
    }
    assert forall|e: int| #[trigger] edge_crosses(index as int, e) implies exists|k: int|
        0 <= k < 3 * triangle_count(index) && row_entry(mc_row(index), k) == e by {
        assert(covered(index, e)) by {
            assert(e == 0 || e == 1 || e == 2 || e == 3 || e == 4 || e == 5 || e == 6 || e == 7 || e == 8 || e == 9
                || e == 10 || e == 11);
        }
        let row = mc_row(index);
        if row.0 == e {
            assert(row_entry(row, 0) == e);
        } else if row.1 == e {
            assert(row_entry(row, 1) == e);
        } else if row.2 == e {
            assert(row_entry(row, 2) == e);
        } else if row.3 == e {
            assert(row_entry(row, 3) == e);
        } else if row.4 == e {
            assert(row_entry(row, 4) == e);
        } else if row.5 == e {
            assert(row_entry(row, 5) == e);
        } else if row.6 == e {
            assert(row_entry(row, 6) == e);
        } else if row.7 == e {
            assert(row_entry(row, 7) == e);
        } else if row.8 == e {
            assert(row_entry(row, 8) == e);
        } else if row.9 == e {
            assert(row_entry(row, 9) == e);
        } else if row.10 == e {
            assert(row_entry(row, 10) == e);
        } else {
            assert(row_entry(row, 11) == e);
        }
        assert(entry_ok(index, 0) && entry_ok(index, 1) && entry_ok(index, 2) && entry_ok(index, 3));
        assert(entry_ok(index, 4) && entry_ok(index, 5) && entry_ok(index, 6) && entry_ok(index, 7));
        assert(entry_ok(index, 8) && entry_ok(index, 9) && entry_ok(index, 10) && entry_ok(index, 11));
    }
}

proof fn lemma_bits_of_sum(a0: bool, a1: bool, a2: bool, a3: bool, a4: bool, a5: bool, a6: bool, a7: bool)
    by (bit_vector)
    ensures
        ({
            let i: u32 = (if a0 { 1u32 } else { 0u32 }) | (if a1 { 2u32 } else { 0u32 }) | (if a2 { 4u32 } else { 0u32 })
                | (if a3 { 8u32 } else { 0u32 }) | (if a4 { 16u32 } else { 0u32 }) | (if a5 { 32u32 } else { 0u32 }) | (
            if a6 { 64u32 } else { 0u32 }) | (if a7 { 128u32 } else { 0u32 });
            &&& i == (if a0 { 1u32 } else { 0u32 }) + (if a1 { 2u32 } else { 0u32 }) + (if a2 { 4u32 } else { 0u32 }) + (
            if a3 { 8u32 } else { 0u32 }) + (if a4 { 16u32 } else { 0u32 }) + (if a5 { 32u32 } else { 0u32 }) + (if a6 {
                64u32
            } else { 0u32 }) + (if a7 { 128u32 } else { 0u32 })
            &&& ((i / 1) % 2 == 1) == a0
            &&& ((i / 2) % 2 == 1) == a1
            &&& ((i / 4) % 2 == 1) == a2
            &&& ((i / 8) % 2 == 1) == a3
            &&& ((i / 16) % 2 == 1) == a4
            &&& ((i / 32) % 2 == 1) == a5
            &&& ((i / 64) % 2 == 1) == a6
            &&& ((i / 128) % 2 == 1) == a7
        }),
{
}

/// The pattern of a cell has bit `c` set exactly when corner `c` is above
/// the surface.
pub proof fn law_pattern_bits(above: [bool; 8])
    ensures
        forall|c: int| 0 <= c < 8 ==> #[trigger] corner_bit(pattern_of(above), c) == above[c],
{
    lemma_bits_of_sum(above[0], above[1], above[2], above[3], above[4], above[5], above[6], above[7]);
}

/// The triangles of a cell in pattern `index`, each as the three edges that
/// carry its corners, in the order of the table.
pub fn cell_triangles(index: u8) -> (r: Vec<[u8; 3]>)
    ensures
        r@.len() == triangle_count(index),
        forall|t: int, j: int|
            0 <= t < r@.len() && 0 <= j < 3 ==> #[trigger] r@[t][j] as int == row_entry(mc_row(index), 3 * t + j),
{
    let row = table_row(index);
    proof {
        law_triangles_on_crossing_edges(index);
    }
    let ghost n = 3 * triangle_count(index);
    let mut tris: Vec<[u8; 3]> = Vec::new();
    let mut i: usize = 0;
    while i < 12
        invariant
            row@ == mc_row(index),
            n == 3 * triangle_count(index),
            n <= 12,
            i == 3 * tris@.len(),
            i <= n,
            forall|k: int| 0 <= k < n ==> #[trigger] edge_crosses(index as int, row_entry(mc_row(index), k)),
            forall|k: int| n <= k < 12 ==> #[trigger] row_entry(mc_row(index), k) == -1,
            forall|t: int, j: int|
                0 <= t < tris@.len() && 0 <= j < 3 ==> #[trigger] tris@[t][j] as int == row_entry(
                    mc_row(index),
                    3 * t + j,
                ),
        ensures
            i == n,
            i == 3 * tris@.len(),
            forall|t: int, j: int|
                0 <= t < tris@.len() && 0 <= j < 3 ==> #[trigger] tris@[t][j] as int == row_entry(
                    mc_row(index),
                    3 * t + j,
                ),
        decreases 12 - i,
    {
        let a = row_entry_at(&row, i);
        if a == -1 {
            proof {
                if i < n {
                    assert(edge_crosses(index as int, row_entry(mc_row(index), i as int)));
                }
            }
            break;
        }
        assert(i < n);
        assert(edge_crosses(index as int, row_entry(mc_row(index), i + 1)));
        assert(edge_crosses(index as int, row_entry(mc_row(index), i + 2)));
        let b = row_entry_at(&row, i + 1);
        let c = row_entry_at(&row, i + 2);
        let tri = [a as u8, b as u8, c as u8];
        proof {
            assert(edge_crosses(index as int, row_entry(mc_row(index), i as int)));
        }
        tris.push(tri);
        i = i + 3;
    }
    tris
}

/// Every corner of every triangle of a cell lies on an edge between a
/// corner above the surface and one that is not, so that the value along
/// that edge changes sign.
pub proof fn law_cell_triangles_cross(above: [bool; 8])
    ensures
        0 <= pattern_of(above) < 256,
        forall|k: int|
            0 <= k < 3 * triangle_count(pattern_of(above) as u8) ==> {
                let e = #[trigger] row_entry(mc_row(pattern_of(above) as u8), k);
                &&& 0 <= e < 12
                &&& above[edge_ends(e).0] != above[edge_ends(e).1]
            },
{
    let index = pattern_of(above) as u8;
    law_pattern_bits(above);
    law_triangles_on_crossing_edges(index);
    assert forall|k: int| 0 <= k < 3 * triangle_count(index) implies {
        let e = #[trigger] row_entry(mc_row(index), k);
        &&& 0 <= e < 12
        &&& above[edge_ends(e).0] != above[edge_ends(e).1]
    } by {
        let e = row_entry(mc_row(index), k);
        assert(edge_crosses(index as int, e));
        let (a, b) = edge_ends(e);
        assert(0 <= a < 8 && 0 <= b < 8);
        assert(corner_bit(pattern_of(above), a) == above[a]);
        assert(corner_bit(pattern_of(above), b) == above[b]);
    }
}

} // verus!
