use vstd::prelude::*;

use crate::marching_cubes::table::{edge_ends, mc_row, row_entry, triangle_count};

verus! {

// ── The triangles of a cell tile the cut ─────────────────────────────────────

/// Coordinate `axis` of corner `c`.
pub open spec fn corner_coord(c: int, axis: int) -> int {
    if axis == 0 {
        c % 2
    } else if axis == 1 {
        (c / 2) % 2
    } else {
        (c / 4) % 2
    }
}

/// Edge `e` lies on face `f` of the cube: the face where coordinate `f / 2`
/// is `f % 2`.
pub open spec fn on_face(e: int, f: int) -> bool {
    &&& corner_coord(edge_ends(e).0, f / 2) == f % 2
    &&& corner_coord(edge_ends(e).1, f / 2) == f % 2
}

/// Edges `x` and `y` lie on a common face of the cube, so that a segment
/// between points on them lies in that face.
pub open spec fn share_face(x: int, y: int) -> bool {
    ||| on_face(x, 0) && on_face(y, 0)
    ||| on_face(x, 1) && on_face(y, 1)
    ||| on_face(x, 2) && on_face(y, 2)
    ||| on_face(x, 3) && on_face(y, 3)
    ||| on_face(x, 4) && on_face(y, 4)
    ||| on_face(x, 5) && on_face(y, 5)
}

/// Side `s` of the triangles of pattern `index` runs from the edge at entry
/// `s` to the next corner of the same triangle.
pub open spec fn side_from(index: u8, s: int) -> int {
    row_entry(mc_row(index), s)
}

pub open spec fn side_to(index: u8, s: int) -> int {
    row_entry(mc_row(index), if s % 3 == 2 { s - 2 } else { s + 1 })
}

/// Side `s` is one of the triangles' sides.
pub open spec fn live(index: u8, s: int) -> bool {
    0 <= s < 3 * triangle_count(index)
}

pub open spec fn t_is(s: int, t: int) -> bool {
    s == t
}

/// Sides `s` and `t` run from the same edge to the same edge.
pub open spec fn same_dir(index: u8, s: int, t: int) -> bool {
    side_from(index, s) == side_from(index, t) && side_to(index, s) == side_to(index, t)
}

/// Side `t` runs between the same edges as side `s`, the other way.
pub open spec fn reversed(index: u8, s: int, t: int) -> bool {
    side_from(index, s) == side_to(index, t) && side_to(index, s) == side_from(index, t)
}

pub open spec fn side_tiles(index: u8, s: int) -> bool {
    !live(index, s) || {
        &&& (t_is(s, 0) || !live(index, 0) || !same_dir(index, s, 0)) && (t_is(s, 1) || !live(index, 1) || !same_dir(index, s, 1)) && (t_is(s, 2) || !live(index, 2) || !same_dir(index, s, 2)) && (t_is(s, 3) || !live(index, 3) || !same_dir(index, s, 3)) && (t_is(s, 4) || !live(index, 4) || !same_dir(index, s, 4)) && (t_is(s, 5) || !live(index, 5) || !same_dir(index, s, 5)) && (t_is(s, 6) || !live(index, 6) || !same_dir(index, s, 6)) && (t_is(s, 7) || !live(index, 7) || !same_dir(index, s, 7)) && (t_is(s, 8) || !live(index, 8) || !same_dir(index, s, 8)) && (t_is(s, 9) || !live(index, 9) || !same_dir(index, s, 9)) && (t_is(s, 10) || !live(index, 10) || !same_dir(index, s, 10)) && (t_is(s, 11) || !live(index, 11) || !same_dir(index, s, 11))
        &&& if share_face(side_from(index, s), side_to(index, s)) {
            (!live(index, 0) || !reversed(index, s, 0)) && (!live(index, 1) || !reversed(index, s, 1)) && (!live(index, 2) || !reversed(index, s, 2)) && (!live(index, 3) || !reversed(index, s, 3)) && (!live(index, 4) || !reversed(index, s, 4)) && (!live(index, 5) || !reversed(index, s, 5)) && (!live(index, 6) || !reversed(index, s, 6)) && (!live(index, 7) || !reversed(index, s, 7)) && (!live(index, 8) || !reversed(index, s, 8)) && (!live(index, 9) || !reversed(index, s, 9)) && (!live(index, 10) || !reversed(index, s, 10)) && (!live(index, 11) || !reversed(index, s, 11))
        } else {
            (live(index, 0) && reversed(index, s, 0)) || (live(index, 1) && reversed(index, s, 1)) || (live(index, 2) && reversed(index, s, 2)) || (live(index, 3) && reversed(index, s, 3)) || (live(index, 4) && reversed(index, s, 4)) || (live(index, 5) && reversed(index, s, 5)) || (live(index, 6) && reversed(index, s, 6)) || (live(index, 7) && reversed(index, s, 7)) || (live(index, 8) && reversed(index, s, 8)) || (live(index, 9) && reversed(index, s, 9)) || (live(index, 10) && reversed(index, s, 10)) || (live(index, 11) && reversed(index, s, 11))
        }
    }
}

pub open spec fn row_tiles(index: u8) -> bool {
    &&& side_tiles(index, 0) && side_tiles(index, 1) && side_tiles(index, 2) && side_tiles(index, 3)
    &&& side_tiles(index, 4) && side_tiles(index, 5) && side_tiles(index, 6) && side_tiles(index, 7)
    &&& side_tiles(index, 8) && side_tiles(index, 9) && side_tiles(index, 10) && side_tiles(index, 11)
}

proof fn lemma_tiles_0_to_31(index: u8)
    requires
        index <= 31,
    ensures
        row_tiles(index),
{
    reveal(mc_row);
    match index {
        0 => assert(row_tiles(0)),
        1 => assert(row_tiles(1)),
        2 => assert(row_tiles(2)),
        3 => assert(row_tiles(3)),
        4 => assert(row_tiles(4)),
        5 => assert(row_tiles(5)),
        6 => assert(row_tiles(6)),
        7 => assert(row_tiles(7)),
        8 => assert(row_tiles(8)),
        9 => assert(row_tiles(9)),
        10 => assert(row_tiles(10)),
        11 => assert(row_tiles(11)),
        12 => assert(row_tiles(12)),
        13 => assert(row_tiles(13)),
        14 => assert(row_tiles(14)),
        15 => assert(row_tiles(15)),
        16 => assert(row_tiles(16)),
        17 => assert(row_tiles(17)),
        18 => assert(row_tiles(18)),
        19 => assert(row_tiles(19)),
        20 => assert(row_tiles(20)),
        21 => assert(row_tiles(21)),
        22 => assert(row_tiles(22)),
        23 => assert(row_tiles(23)),
        24 => assert(row_tiles(24)),
        25 => assert(row_tiles(25)),
        26 => assert(row_tiles(26)),
        27 => assert(row_tiles(27)),
        28 => assert(row_tiles(28)),
        29 => assert(row_tiles(29)),
        30 => assert(row_tiles(30)),
        31 => assert(row_tiles(31)),
        _ => {},
    }
}

proof fn lemma_tiles_32_to_63(index: u8)
    requires
        32 <= index <= 63,
    ensures
        row_tiles(index),
{
    reveal(mc_row);
    match index {
        32 => assert(row_tiles(32)),
        33 => assert(row_tiles(33)),
        34 => assert(row_tiles(34)),
        35 => assert(row_tiles(35)),
        36 => assert(row_tiles(36)),
        37 => assert(row_tiles(37)),
        38 => assert(row_tiles(38)),
        39 => assert(row_tiles(39)),
        40 => assert(row_tiles(40)),
        41 => assert(row_tiles(41)),
        42 => assert(row_tiles(42)),
        43 => assert(row_tiles(43)),
        44 => assert(row_tiles(44)),
        45 => assert(row_tiles(45)),
        46 => assert(row_tiles(46)),
        47 => assert(row_tiles(47)),
        48 => assert(row_tiles(48)),
        49 => assert(row_tiles(49)),
        50 => assert(row_tiles(50)),
        51 => assert(row_tiles(51)),
        52 => assert(row_tiles(52)),
        53 => assert(row_tiles(53)),
        54 => assert(row_tiles(54)),
        55 => assert(row_tiles(55)),
        56 => assert(row_tiles(56)),
        57 => assert(row_tiles(57)),
        58 => assert(row_tiles(58)),
        59 => assert(row_tiles(59)),
        60 => assert(row_tiles(60)),
        61 => assert(row_tiles(61)),
        62 => assert(row_tiles(62)),
        63 => assert(row_tiles(63)),
        _ => {},
    }
}

proof fn lemma_tiles_64_to_95(index: u8)
    requires
        64 <= index <= 95,
    ensures
        row_tiles(index),
{
    reveal(mc_row);
    match index {
        64 => assert(row_tiles(64)),
        65 => assert(row_tiles(65)),
        66 => assert(row_tiles(66)),
        67 => assert(row_tiles(67)),
        68 => assert(row_tiles(68)),
        69 => assert(row_tiles(69)),
        70 => assert(row_tiles(70)),
        71 => assert(row_tiles(71)),
        72 => assert(row_tiles(72)),
        73 => assert(row_tiles(73)),
        74 => assert(row_tiles(74)),
        75 => assert(row_tiles(75)),
        76 => assert(row_tiles(76)),
        77 => assert(row_tiles(77)),
        78 => assert(row_tiles(78)),
        79 => assert(row_tiles(79)),
        80 => assert(row_tiles(80)),
        81 => assert(row_tiles(81)),
        82 => assert(row_tiles(82)),
        83 => assert(row_tiles(83)),
        84 => assert(row_tiles(84)),
        85 => assert(row_tiles(85)),
        86 => assert(row_tiles(86)),
        87 => assert(row_tiles(87)),
        88 => assert(row_tiles(88)),
        89 => assert(row_tiles(89)),
        90 => assert(row_tiles(90)),
        91 => assert(row_tiles(91)),
        92 => assert(row_tiles(92)),
        93 => assert(row_tiles(93)),
        94 => assert(row_tiles(94)),
        95 => assert(row_tiles(95)),
        _ => {},
    }
}

proof fn lemma_tiles_96_to_127(index: u8)
    requires
        96 <= index <= 127,
    ensures
        row_tiles(index),
{
    reveal(mc_row);
    match index {
        96 => assert(row_tiles(96)),
        97 => assert(row_tiles(97)),
        98 => assert(row_tiles(98)),
        99 => assert(row_tiles(99)),
        100 => assert(row_tiles(100)),
        101 => assert(row_tiles(101)),
        102 => assert(row_tiles(102)),
        103 => assert(row_tiles(103)),
        104 => assert(row_tiles(104)),
        105 => assert(row_tiles(105)),
        106 => assert(row_tiles(106)),
        107 => assert(row_tiles(107)),
        108 => assert(row_tiles(108)),
        109 => assert(row_tiles(109)),
        110 => assert(row_tiles(110)),
        111 => assert(row_tiles(111)),
        112 => assert(row_tiles(112)),
        113 => assert(row_tiles(113)),
        114 => assert(row_tiles(114)),
        115 => assert(row_tiles(115)),
        116 => assert(row_tiles(116)),
        117 => assert(row_tiles(117)),
        118 => assert(row_tiles(118)),
        119 => assert(row_tiles(119)),
        120 => assert(row_tiles(120)),
        121 => assert(row_tiles(121)),
        122 => assert(row_tiles(122)),
        123 => assert(row_tiles(123)),
        124 => assert(row_tiles(124)),
        125 => assert(row_tiles(125)),
        126 => assert(row_tiles(126)),
        127 => assert(row_tiles(127)),
        _ => {},
    }
}

proof fn lemma_tiles_128_to_159(index: u8)
    requires
        128 <= index <= 159,
    ensures
        row_tiles(index),
{
    reveal(mc_row);
    match index {
        128 => assert(row_tiles(128)),
        129 => assert(row_tiles(129)),
        130 => assert(row_tiles(130)),
        131 => assert(row_tiles(131)),
        132 => assert(row_tiles(132)),
        133 => assert(row_tiles(133)),
        134 => assert(row_tiles(134)),
        135 => assert(row_tiles(135)),
        136 => assert(row_tiles(136)),
        137 => assert(row_tiles(137)),
        138 => assert(row_tiles(138)),
        139 => assert(row_tiles(139)),
        140 => assert(row_tiles(140)),
        141 => assert(row_tiles(141)),
        142 => assert(row_tiles(142)),
        143 => assert(row_tiles(143)),
        144 => assert(row_tiles(144)),
        145 => assert(row_tiles(145)),
        146 => assert(row_tiles(146)),
        147 => assert(row_tiles(147)),
        148 => assert(row_tiles(148)),
        149 => assert(row_tiles(149)),
        150 => assert(row_tiles(150)),
        151 => assert(row_tiles(151)),
        152 => assert(row_tiles(152)),
        153 => assert(row_tiles(153)),
        154 => assert(row_tiles(154)),
        155 => assert(row_tiles(155)),
        156 => assert(row_tiles(156)),
        157 => assert(row_tiles(157)),
        158 => assert(row_tiles(158)),
        159 => assert(row_tiles(159)),
        _ => {},
    }
}

proof fn lemma_tiles_160_to_191(index: u8)
    requires
        160 <= index <= 191,
    ensures
        row_tiles(index),
{
    reveal(mc_row);
    match index {
        160 => assert(row_tiles(160)),
        161 => assert(row_tiles(161)),
        162 => assert(row_tiles(162)),
        163 => assert(row_tiles(163)),
        164 => assert(row_tiles(164)),
        165 => assert(row_tiles(165)),
        166 => assert(row_tiles(166)),
        167 => assert(row_tiles(167)),
        168 => assert(row_tiles(168)),
        169 => assert(row_tiles(169)),
        170 => assert(row_tiles(170)),
        171 => assert(row_tiles(171)),
        172 => assert(row_tiles(172)),
        173 => assert(row_tiles(173)),
        174 => assert(row_tiles(174)),
        175 => assert(row_tiles(175)),
        176 => assert(row_tiles(176)),
        177 => assert(row_tiles(177)),
        178 => assert(row_tiles(178)),
        179 => assert(row_tiles(179)),
        180 => assert(row_tiles(180)),
        181 => assert(row_tiles(181)),
        182 => assert(row_tiles(182)),
        183 => assert(row_tiles(183)),
        184 => assert(row_tiles(184)),
        185 => assert(row_tiles(185)),
        186 => assert(row_tiles(186)),
        187 => assert(row_tiles(187)),
        188 => assert(row_tiles(188)),
        189 => assert(row_tiles(189)),
        190 => assert(row_tiles(190)),
        191 => assert(row_tiles(191)),
        _ => {},
    }
}

proof fn lemma_tiles_192_to_223(index: u8)
    requires
        192 <= index <= 223,
    ensures
        row_tiles(index),
{
    reveal(mc_row);
    match index {
        192 => assert(row_tiles(192)),
        193 => assert(row_tiles(193)),
        194 => assert(row_tiles(194)),
        195 => assert(row_tiles(195)),
        196 => assert(row_tiles(196)),
        197 => assert(row_tiles(197)),
        198 => assert(row_tiles(198)),
        199 => assert(row_tiles(199)),
        200 => assert(row_tiles(200)),
        201 => assert(row_tiles(201)),
        202 => assert(row_tiles(202)),
        203 => assert(row_tiles(203)),
        204 => assert(row_tiles(204)),
        205 => assert(row_tiles(205)),
        206 => assert(row_tiles(206)),
        207 => assert(row_tiles(207)),
        208 => assert(row_tiles(208)),
        209 => assert(row_tiles(209)),
        210 => assert(row_tiles(210)),
        211 => assert(row_tiles(211)),
        212 => assert(row_tiles(212)),
        213 => assert(row_tiles(213)),
        214 => assert(row_tiles(214)),
        215 => assert(row_tiles(215)),
        216 => assert(row_tiles(216)),
        217 => assert(row_tiles(217)),
        218 => assert(row_tiles(218)),
        219 => assert(row_tiles(219)),
        220 => assert(row_tiles(220)),
        221 => assert(row_tiles(221)),
        222 => assert(row_tiles(222)),
        223 => assert(row_tiles(223)),
        _ => {},
    }
}

proof fn lemma_tiles_224_to_255(index: u8)
    requires
        224 <= index <= 255,
    ensures
        row_tiles(index),
{
    reveal(mc_row);
    match index {
        224 => assert(row_tiles(224)),
        225 => assert(row_tiles(225)),
        226 => assert(row_tiles(226)),
        227 => assert(row_tiles(227)),
        228 => assert(row_tiles(228)),
        229 => assert(row_tiles(229)),
        230 => assert(row_tiles(230)),
        231 => assert(row_tiles(231)),
        232 => assert(row_tiles(232)),
        233 => assert(row_tiles(233)),
        234 => assert(row_tiles(234)),
        235 => assert(row_tiles(235)),
        236 => assert(row_tiles(236)),
        237 => assert(row_tiles(237)),
        238 => assert(row_tiles(238)),
        239 => assert(row_tiles(239)),
        240 => assert(row_tiles(240)),
        241 => assert(row_tiles(241)),
        242 => assert(row_tiles(242)),
        243 => assert(row_tiles(243)),
        244 => assert(row_tiles(244)),
        245 => assert(row_tiles(245)),
        246 => assert(row_tiles(246)),
        247 => assert(row_tiles(247)),
        248 => assert(row_tiles(248)),
        249 => assert(row_tiles(249)),
        250 => assert(row_tiles(250)),
        251 => assert(row_tiles(251)),
        252 => assert(row_tiles(252)),
        253 => assert(row_tiles(253)),
        254 => assert(row_tiles(254)),
        255 => assert(row_tiles(255)),
        _ => {},
    }
}

proof fn lemma_row_tiles(index: u8)
    ensures
        row_tiles(index),
{
    if index < 32 {
        lemma_tiles_0_to_31(index);
    } else if index < 64 {
        lemma_tiles_32_to_63(index);
    } else if index < 96 {
        lemma_tiles_64_to_95(index);
    } else if index < 128 {
        lemma_tiles_96_to_127(index);
    } else if index < 160 {
        lemma_tiles_128_to_159(index);
    } else if index < 192 {
        lemma_tiles_160_to_191(index);
    } else if index < 224 {
        lemma_tiles_192_to_223(index);
    } else {
        lemma_tiles_224_to_255(index);
    }
}

/// The triangles of every cell tile the surface's cut through the cell
/// without gaps or overlaps, all turned the same way. No two sides run
/// between the same two edges in the same direction. A side whose two edges
/// lie on one face of the cube lies in that face, on the border of the
/// cut, and no side runs back along it; any other side lies inside the cell
/// and is shared with another triangle, whose side runs the other way.
pub proof fn law_triangles_tile(index: u8)
    ensures
        forall|s: int, t: int|
            0 <= s < 3 * triangle_count(index) && 0 <= t < 3 * triangle_count(index) && s != t ==> !(
            #[trigger] side_from(index, s) == #[trigger] side_from(index, t) && side_to(index, s) == side_to(index, t)),
        forall|s: int, t: int|
            0 <= s < 3 * triangle_count(index) && 0 <= t < 3 * triangle_count(index) && share_face(
                #[trigger] side_from(index, s),
                side_to(index, s),
            ) ==> !(side_from(index, s) == side_to(index, t) && side_to(index, s) == #[trigger] side_from(index, t)),
        forall|s: int|
            0 <= s < 3 * triangle_count(index) && !share_face(#[trigger] side_from(index, s), side_to(index, s))
                ==> exists|t: int|
                0 <= t < 3 * triangle_count(index) && side_from(index, s) == side_to(index, t) && side_to(index, s)
                    == #[trigger] side_from(index, t),
{
    lemma_row_tiles(index);
    assert forall|s: int| 0 <= s < 3 * triangle_count(index) implies #[trigger] side_tiles(index, s) by {
        assert(s == 0 || s == 1 || s == 2 || s == 3 || s == 4 || s == 5 || s == 6 || s == 7 || s == 8 || s == 9 || s == 10 || s == 11);
    }
    assert forall|s: int, t: int|
        0 <= s < 3 * triangle_count(index) && 0 <= t < 3 * triangle_count(index) && s != t implies !(
        #[trigger] side_from(index, s) == #[trigger] side_from(index, t) && side_to(index, s) == side_to(index, t)) by {
        assert(side_tiles(index, s));
        assert(t == 0 || t == 1 || t == 2 || t == 3 || t == 4 || t == 5 || t == 6 || t == 7 || t == 8 || t == 9 || t == 10 || t == 11);
    }
    assert forall|s: int, t: int|
        0 <= s < 3 * triangle_count(index) && 0 <= t < 3 * triangle_count(index) && share_face(
            #[trigger] side_from(index, s),
            side_to(index, s),
        ) implies !(side_from(index, s) == side_to(index, t) && side_to(index, s) == #[trigger] side_from(index, t)) by {
        assert(side_tiles(index, s));
        assert(t == 0 || t == 1 || t == 2 || t == 3 || t == 4 || t == 5 || t == 6 || t == 7 || t == 8 || t == 9 || t == 10 || t == 11);
    }
    assert forall|s: int|
        0 <= s < 3 * triangle_count(index) && !share_face(#[trigger] side_from(index, s), side_to(index, s)) implies exists|t: int|
        0 <= t < 3 * triangle_count(index) && side_from(index, s) == side_to(index, t) && side_to(index, s)
            == #[trigger] side_from(index, t) by {
        assert(side_tiles(index, s));
        if live(index, 0) && reversed(index, s, 0) {
            assert(side_from(index, 0) == side_to(index, s));
        }
        if live(index, 1) && reversed(index, s, 1) {
            assert(side_from(index, 1) == side_to(index, s));
        }
        if live(index, 2) && reversed(index, s, 2) {
            assert(side_from(index, 2) == side_to(index, s));
        }
        if live(index, 3) && reversed(index, s, 3) {
            assert(side_from(index, 3) == side_to(index, s));
        }
        if live(index, 4) && reversed(index, s, 4) {
            assert(side_from(index, 4) == side_to(index, s));
        }
        if live(index, 5) && reversed(index, s, 5) {
            assert(side_from(index, 5) == side_to(index, s));
        }
        if live(index, 6) && reversed(index, s, 6) {
            assert(side_from(index, 6) == side_to(index, s));
        }
        if live(index, 7) && reversed(index, s, 7) {
            assert(side_from(index, 7) == side_to(index, s));
        }
        if live(index, 8) && reversed(index, s, 8) {
            assert(side_from(index, 8) == side_to(index, s));
        }
        if live(index, 9) && reversed(index, s, 9) {
            assert(side_from(index, 9) == side_to(index, s));
        }
        if live(index, 10) && reversed(index, s, 10) {
            assert(side_from(index, 10) == side_to(index, s));
        }
        if live(index, 11) && reversed(index, s, 11) {
            assert(side_from(index, 11) == side_to(index, s));
        }
    }
}

} // verus!
