use spatialtree::LodVec;
use vstd::arithmetic::power2::{lemma_pow2_strictly_increases, lemma_pow2_unfold, pow2};
use vstd::prelude::*;

verus! {

// ── Cells of the octree ──────────────────────────────────────────────────────

/// A cell of the octree over the marching volume: its place on the grid of
/// its depth (each coordinate below `2^depth`), and its depth.
#[derive(Clone, Copy, Debug)]
pub struct CellPos {
    pub pos: [u16; 3],
    pub depth: u8,
}

/// Bit `i` of `index`.
pub open spec fn child_bit(index: int, i: int) -> int {
    if i == 0 {
        index % 2
    } else if i == 1 {
        (index / 2) % 2
    } else {
        (index / 4) % 2
    }
}

/// Child `index` of a cell: one level deeper, each coordinate doubled plus
/// the matching bit of `index`.
pub open spec fn child_spec(c: CellPos, index: int) -> CellPos {
    CellPos {
        pos: [
            (2 * c.pos[0] + child_bit(index, 0)) as u16,
            (2 * c.pos[1] + child_bit(index, 1)) as u16,
            (2 * c.pos[2] + child_bit(index, 2)) as u16,
        ],
        depth: (c.depth + 1) as u8,
    }
}

/// The eight children of a cell, in the order of their index.
pub open spec fn children_spec(c: CellPos) -> Seq<CellPos> {
    Seq::new(8, |i: int| child_spec(c, i))
}

/// `spatialtree`'s `LodVec::get_child` on the `OctVec<u16>` with these
/// coordinates and depth. Its source doubles each coordinate, adds bit `i`
/// of `index` to coordinate `i` (converting back to `u16` with `as`), and
/// adds one to the depth; it asserts in debug builds that `index` is below
/// eight and that the new depth is below its limit of sixty.
#[verifier::external_body]
fn octree_child(pos: [u16; 3], depth: u8, index: usize) -> (r: ([u16; 3], u8))
    requires
        index < 8,
        depth < 59,
    ensures
        r.0[0] == (2 * pos[0] + child_bit(index as int, 0)) as u16,
        r.0[1] == (2 * pos[1] + child_bit(index as int, 1)) as u16,
        r.0[2] == (2 * pos[2] + child_bit(index as int, 2)) as u16,
        r.1 == depth + 1,
{
    let c = spatialtree::OctVec::<u16> { pos, depth }.get_child(index);
    (c.pos, c.depth)
}

/// Child `index` of a cell.
pub fn child(c: &CellPos, index: usize) -> (r: CellPos)
    requires
        index < 8,
        c.depth < 59,
    ensures
        r == child_spec(*c, index as int),
{
    let (pos, depth) = octree_child(c.pos, c.depth, index);
    let r = CellPos { pos, depth };
    assert(r.pos =~= child_spec(*c, index as int).pos);
    r
}

/// The eight children of the root cell: the first level of the search.
pub fn first_level() -> (r: Vec<CellPos>)
    ensures
        r@ == children_spec(CellPos { pos: [0, 0, 0], depth: 0 }),
{
    let root = CellPos { pos: [0, 0, 0], depth: 0 };
    let mut v: Vec<CellPos> = Vec::new();
    let mut i: usize = 0;
    while i < 8
        invariant
            i <= 8,
            root == (CellPos { pos: [0, 0, 0], depth: 0 }),
            v@ == children_spec(root).take(i as int),
        decreases 8 - i,
    {
        let c = child(&root, i);
        proof {
            assert(children_spec(root).take(i + 1) =~= children_spec(root).take(i as int).push(c));
        }
        v.push(c);
        i = i + 1;
    }
    proof {
        assert(children_spec(root).take(8) =~= children_spec(root));
    }
    v
}

// ── What sampling a cell tells ───────────────────────────────────────────────

/// What the values at the eight corners of a cell tell: which are at or
/// below zero, which are above zero, and which are nearer to zero than the
/// cell's diagonal.
#[derive(Clone, Copy, Debug)]
pub struct CellSample {
    pub below: [bool; 8],
    pub above: [bool; 8],
    pub close: [bool; 8],
}

pub open spec fn any_of(b: [bool; 8]) -> bool {
    exists|i: int| 0 <= i < 8 && #[trigger] b[i]
}

fn any_set(b: &[bool; 8]) -> (r: bool)
    ensures
        r == any_of(*b),
{
    let mut i: usize = 0;
    while i < 8
        invariant
            i <= 8,
            forall|j: int| 0 <= j < i ==> !b[j],
        decreases 8 - i,
    {
        if b[i] {
            return true;
        }
        i = i + 1;
    }
    false
}

/// Some corner is at or below the surface and some corner above it.
pub open spec fn straddles_spec(s: CellSample) -> bool {
    any_of(s.below) && any_of(s.above)
}

/// The surface may pass through the cell: it straddles the surface, or a
/// corner is nearer to it than the cell's diagonal (which catches thin
/// features whose corners all lie on one side).
pub open spec fn near_surface_spec(s: CellSample) -> bool {
    straddles_spec(s) || any_of(s.close)
}

/// Whether the cell's corners lie on both sides of the surface.
pub fn straddles(s: &CellSample) -> (r: bool)
    ensures
        r == straddles_spec(*s),
{
    any_set(&s.below) && any_set(&s.above)
}

/// Whether the surface may pass through the cell.
pub fn near_surface(s: &CellSample) -> (r: bool)
    ensures
        r == near_surface_spec(*s),
{
    straddles(s) || any_set(&s.close)
}

// ── Refining one level ───────────────────────────────────────────────────────

/// What becomes of a cell of the current level.
#[derive(Clone, Copy, Debug, PartialEq, Eq, Structural)]
pub enum Fate {
    /// The surface does not come near: the cell is dropped.
    Discard,
    /// The cell is at the deepest level and straddles the surface: it is
    /// kept for meshing.
    Keep,
    /// The cell is split into its eight children for the next level.
    Subdivide,
}

pub open spec fn fate_of(s: CellSample, depth: u8, max_depth: u8) -> Fate {
    if !near_surface_spec(s) {
        Fate::Discard
    } else if depth >= max_depth {
        if straddles_spec(s) {
            Fate::Keep
        } else {
            Fate::Discard
        }
    } else {
        Fate::Subdivide
    }
}

/// What becomes of a cell at `depth` whose corners gave `s`.
pub fn cell_fate(s: &CellSample, depth: u8, max_depth: u8) -> (r: Fate)
    ensures
        r == fate_of(*s, depth, max_depth),
{
    if !near_surface(s) {
        Fate::Discard
    } else if depth >= max_depth {
        if straddles(s) {
            Fate::Keep
        } else {
            Fate::Discard
        }
    } else {
        Fate::Subdivide
    }
}

/// The next level made from the first `n` cells: the children of those
/// that are subdivided, in order.
pub open spec fn next_level(cells: Seq<CellPos>, samples: Seq<CellSample>, depth: u8, max_depth: u8, n: int) -> Seq<
    CellPos,
>
    decreases n,
{
    if n <= 0 {
        Seq::empty()
    } else {
        let before = next_level(cells, samples, depth, max_depth, n - 1);
        if fate_of(samples[n - 1], depth, max_depth) == Fate::Subdivide {
            before + children_spec(cells[n - 1])
        } else {
            before
        }
    }
}

/// The positions, among the first `n` cells, of those that are kept.
pub open spec fn kept_cells(samples: Seq<CellSample>, depth: u8, max_depth: u8, n: int) -> Seq<usize>
    decreases n,
{
    if n <= 0 {
        Seq::empty()
    } else {
        let before = kept_cells(samples, depth, max_depth, n - 1);
        if fate_of(samples[n - 1], depth, max_depth) == Fate::Keep {
            before.push((n - 1) as usize)
        } else {
            before
        }
    }
}

/// The depth of a level: that of its first cell.
pub open spec fn level_depth(cells: Seq<CellPos>) -> u8 {
    cells[0].depth
}

/// Decides the fate of each cell of a level from its sample, as the search
/// does: gives the next level (the children of the cells that are
/// subdivided, in order) and the positions of the cells that are kept.
pub fn refine_level(cells: &Vec<CellPos>, samples: &Vec<CellSample>, max_depth: u8) -> (r: (Vec<CellPos>, Vec<usize>))
    requires
        cells@.len() == samples@.len(),
        forall|i: int| 0 <= i < cells@.len() ==> #[trigger] cells@[i].depth < 59,
    ensures
        r.0@ == next_level(cells@, samples@, level_depth(cells@), max_depth, cells@.len() as int),
        r.1@ == kept_cells(samples@, level_depth(cells@), max_depth, cells@.len() as int),
{
    let mut next: Vec<CellPos> = Vec::new();
    let mut kept: Vec<usize> = Vec::new();
    if cells.len() == 0 {
        return (next, kept);
    }
    let depth = cells[0].depth;
    let mut i: usize = 0;
    while i < cells.len()
        invariant
            cells@.len() == samples@.len(),
            forall|j: int| 0 <= j < cells@.len() ==> #[trigger] cells@[j].depth < 59,
            depth == level_depth(cells@),
            i <= cells@.len(),
            next@ == next_level(cells@, samples@, depth, max_depth, i as int),
            kept@ == kept_cells(samples@, depth, max_depth, i as int),
        decreases cells@.len() - i,
    {
        let fate = cell_fate(&samples[i], depth, max_depth);
        match fate {
            Fate::Subdivide => {
                let ghost before = next@;
                let mut k: usize = 0;
                while k < 8
                    invariant
                        k <= 8,
                        i < cells@.len(),
                        cells@[i as int].depth < 59,
                        next@ == before + children_spec(cells@[i as int]).take(k as int),
                    decreases 8 - k,
                {
                    let c = child(&cells[i], k);
                    proof {
                        assert(children_spec(cells@[i as int]).take(k + 1) =~= children_spec(cells@[i as int]).take(
                            k as int,
                        ).push(c));
                    }
                    next.push(c);
                    k = k + 1;
                }
                proof {
                    assert(children_spec(cells@[i as int]).take(8) =~= children_spec(cells@[i as int]));
                }
            },
            Fate::Keep => {
                kept.push(i);
            },
            Fate::Discard => {},
        }
        i = i + 1;
    }
    (next, kept)
}

/// The limit on the depth of the search, from the number of halvings that
/// would bring the volume's side down to the wanted precision: at least
/// one level and at most fifteen.
pub fn depth_limit(halvings: u8) -> (r: u8)
    ensures
        r == (if halvings < 1 {
            1
        } else if halvings > 15 {
            15
        } else {
            halvings
        }),
{
    if halvings < 1 {
        1
    } else if halvings > 15 {
        15
    } else {
        halvings
    }
}

// ── The shape of the search ──────────────────────────────────────────────────

/// A level of the search: every cell at depth `d`, inside the grid of that
/// depth.
pub open spec fn level_at(cells: Seq<CellPos>, d: u8) -> bool {
    forall|i: int|
        0 <= i < cells.len() ==> {
            let c = #[trigger] cells[i];
            &&& c.depth == d
            &&& c.pos[0] < pow2(d as nat)
            &&& c.pos[1] < pow2(d as nat)
            &&& c.pos[2] < pow2(d as nat)
        }
}

proof fn lemma_children_level(c: CellPos, d: u8)
    requires
        d < 15,
        level_at(seq![c], d),
    ensures
        level_at(children_spec(c), (d + 1) as u8),
{
    assert(seq![c][0] == c);
    let e = (d + 1) as nat;
    lemma_pow2_unfold(e);
    vstd::arithmetic::power2::lemma2_to64();
    if e < 15 {
        lemma_pow2_strictly_increases(e, 15);
    }
    assert(pow2(e) <= 32768);
    assert forall|i: int| 0 <= i < 8 implies {
        let k = #[trigger] children_spec(c)[i];
        &&& k.depth == (d + 1) as u8
        &&& k.pos[0] < pow2(e)
        &&& k.pos[1] < pow2(e)
        &&& k.pos[2] < pow2(e)
    } by {
        let k = children_spec(c)[i];
        assert(k == child_spec(c, i));
        assert(0 <= child_bit(i, 0) <= 1 && 0 <= child_bit(i, 1) <= 1 && 0 <= child_bit(i, 2) <= 1);
    }
}

proof fn lemma_next_level_at(cells: Seq<CellPos>, samples: Seq<CellSample>, d: u8, max_depth: u8, n: int)
    requires
        0 <= n <= cells.len(),
        level_at(cells, d),
        d < 15,
    ensures
        level_at(next_level(cells, samples, d, max_depth, n), (d + 1) as u8),
    decreases n,
{
    if n > 0 {
        lemma_next_level_at(cells, samples, d, max_depth, n - 1);
        let before = next_level(cells, samples, d, max_depth, n - 1);
        if fate_of(samples[n - 1], d, max_depth) == Fate::Subdivide {
            let c = cells[n - 1];
            assert(level_at(seq![c], d)) by {
                assert(seq![c][0] == c);
            }
            lemma_children_level(c, d);
            let all = before + children_spec(c);
            assert forall|i: int| 0 <= i < all.len() implies {
                let k = #[trigger] all[i];
                &&& k.depth == (d + 1) as u8
                &&& k.pos[0] < pow2((d + 1) as u8 as nat)
                &&& k.pos[1] < pow2((d + 1) as u8 as nat)
                &&& k.pos[2] < pow2((d + 1) as u8 as nat)
            } by {
                if i < before.len() {
                    assert(all[i] == before[i]);
                } else {
                    assert(all[i] == children_spec(c)[i - before.len()]);
                }
            }
        }
    }
}

proof fn lemma_next_level_empty(cells: Seq<CellPos>, samples: Seq<CellSample>, d: u8, max_depth: u8, n: int)
    requires
        d >= max_depth,
    ensures
        next_level(cells, samples, d, max_depth, n) == Seq::<CellPos>::empty(),
    decreases n,
{
    if n > 0 {
        lemma_next_level_empty(cells, samples, d, max_depth, n - 1);
    }
}

proof fn lemma_kept_cells(samples: Seq<CellSample>, d: u8, max_depth: u8, n: int)
    requires
        0 <= n <= samples.len(),
        n <= usize::MAX,
    ensures
        ({
            let kept = kept_cells(samples, d, max_depth, n);
            &&& forall|k: int|
                0 <= k < kept.len() ==> {
                    &&& #[trigger] kept[k] < n
                    &&& straddles_spec(samples[kept[k] as int])
                    &&& d >= max_depth
                }
            &&& forall|k1: int, k2: int| 0 <= k1 < k2 < kept.len() ==> #[trigger] kept[k1] < #[trigger] kept[k2]
        }),
    decreases n,
{
    if n > 0 {
        lemma_kept_cells(samples, d, max_depth, n - 1);
        let before = kept_cells(samples, d, max_depth, n - 1);
        let kept = kept_cells(samples, d, max_depth, n);
        if fate_of(samples[n - 1], d, max_depth) == Fate::Keep {
            assert(kept == before.push((n - 1) as usize));
            assert forall|k: int| 0 <= k < kept.len() implies {
                &&& #[trigger] kept[k] < n
                &&& straddles_spec(samples[kept[k] as int])
                &&& d >= max_depth
            } by {
                if k < before.len() {
                    assert(kept[k] == before[k]);
                }
            }
            assert forall|k1: int, k2: int| 0 <= k1 < k2 < kept.len() implies #[trigger] kept[k1] < #[trigger] kept[k2] by {
                assert(kept[k1] == before[k1]);
                if k2 < before.len() {
                    assert(kept[k2] == before[k2]);
                }
            }
        }
    }
}

/// The first level of the search lies at depth one, on the grid of that
/// depth.
pub proof fn law_first_level()
    ensures
        level_at(children_spec(CellPos { pos: [0, 0, 0], depth: 0 }), 1),
{
    let root = CellPos { pos: [0, 0, 0], depth: 0 };
    vstd::arithmetic::power2::lemma2_to64();
    assert(level_at(seq![root], 0)) by {
        assert(seq![root][0] == root);
    }
    lemma_children_level(root, 0);
}

/// One step of the search keeps its shape. From a level whose cells all lie
/// at depth `d` on the grid of that depth, with a depth limit of at most
/// fifteen: below the limit, the next level's cells all lie at depth `d + 1`
/// on the grid of that depth (so no coordinate overflows); at the limit the
/// next level is empty, so the search ends; and each kept cell straddles the
/// surface, was sampled at the limit or deeper, and is kept once.
pub proof fn law_refine_level(cells: Seq<CellPos>, samples: Seq<CellSample>, d: u8, max_depth: u8)
    requires
        cells.len() > 0,
        cells.len() == samples.len(),
        cells.len() <= usize::MAX,
        level_at(cells, d),
        max_depth <= 15,
    ensures
        level_depth(cells) == d,
        d >= max_depth ==> next_level(cells, samples, d, max_depth, cells.len() as int) == Seq::<CellPos>::empty(),
        d < max_depth ==> level_at(next_level(cells, samples, d, max_depth, cells.len() as int), (d + 1) as u8),
        ({
            let kept = kept_cells(samples, d, max_depth, cells.len() as int);
            &&& forall|k: int|
                0 <= k < kept.len() ==> {
                    &&& #[trigger] kept[k] < cells.len()
                    &&& straddles_spec(samples[kept[k] as int])
                    &&& d >= max_depth
                }
            &&& forall|k1: int, k2: int| 0 <= k1 < k2 < kept.len() ==> #[trigger] kept[k1] < #[trigger] kept[k2]
        }),
{
    assert(cells[0].depth == d);
    if d >= max_depth {
        lemma_next_level_empty(cells, samples, d, max_depth, cells.len() as int);
    } else {
        lemma_next_level_at(cells, samples, d, max_depth, cells.len() as int);
    }
    lemma_kept_cells(samples, d, max_depth, cells.len() as int);
}

// ── No cell twice ────────────────────────────────────────────────────────────

pub open spec fn same_pos(a: CellPos, b: CellPos) -> bool {
    a.pos[0] == b.pos[0] && a.pos[1] == b.pos[1] && a.pos[2] == b.pos[2]
}

/// No two cells of `cells` share a position.
pub open spec fn distinct_cells(cells: Seq<CellPos>) -> bool {
    forall|i: int, j: int| 0 <= i < j < cells.len() ==> !same_pos(#[trigger] cells[i], #[trigger] cells[j])
}

/// Which cell of the first `n`, and which child of it, cell `k` of the next
/// level made from them is.
pub open spec fn origin(cells: Seq<CellPos>, samples: Seq<CellSample>, d: u8, max_depth: u8, n: int, k: int) -> (
    int,
    int,
)
    decreases n,
{
    if n <= 0 {
        (0, 0)
    } else {
        let before = next_level(cells, samples, d, max_depth, n - 1);
        if k < before.len() {
            origin(cells, samples, d, max_depth, n - 1, k)
        } else {
            (n - 1, k - before.len())
        }
    }
}

pub open spec fn from_parents(cells: Seq<CellPos>, samples: Seq<CellSample>, d: u8, max_depth: u8, n: int) -> bool {
    let next = next_level(cells, samples, d, max_depth, n);
    forall|k: int|
        0 <= k < next.len() ==> {
            let o = #[trigger] origin(cells, samples, d, max_depth, n, k);
            &&& 0 <= o.0 < n
            &&& 0 <= o.1 < 8
            &&& next[k] == child_spec(cells[o.0], o.1)
        }
}

proof fn lemma_children_apart(a: CellPos, b: CellPos, i: int, j: int, d: u8)
    requires
        d < 15,
        level_at(seq![a], d),
        level_at(seq![b], d),
        0 <= i < 8,
        0 <= j < 8,
        same_pos(child_spec(a, i), child_spec(b, j)),
    ensures
        same_pos(a, b),
        i == j,
{
    assert(seq![a][0] == a);
    assert(seq![b][0] == b);
    vstd::arithmetic::power2::lemma2_to64();
    if d < 15 {
        lemma_pow2_strictly_increases(d as nat, 15);
    }
    assert(0 <= child_bit(i, 0) <= 1 && 0 <= child_bit(i, 1) <= 1 && 0 <= child_bit(i, 2) <= 1);
    assert(0 <= child_bit(j, 0) <= 1 && 0 <= child_bit(j, 1) <= 1 && 0 <= child_bit(j, 2) <= 1);
    assert(i == child_bit(i, 0) + 2 * child_bit(i, 1) + 4 * child_bit(i, 2));
    assert(j == child_bit(j, 0) + 2 * child_bit(j, 1) + 4 * child_bit(j, 2));
}

proof fn lemma_next_level_distinct(cells: Seq<CellPos>, samples: Seq<CellSample>, d: u8, max_depth: u8, n: int)
    requires
        0 <= n <= cells.len(),
        level_at(cells, d),
        d < 15,
        distinct_cells(cells),
    ensures
        distinct_cells(next_level(cells, samples, d, max_depth, n)),
        from_parents(cells, samples, d, max_depth, n),
    decreases n,
{
    if n > 0 {
        lemma_next_level_distinct(cells, samples, d, max_depth, n - 1);
        let before = next_level(cells, samples, d, max_depth, n - 1);
        let next = next_level(cells, samples, d, max_depth, n);
        assert forall|k: int| 0 <= k < before.len() implies #[trigger] origin(cells, samples, d, max_depth, n, k)
            == origin(cells, samples, d, max_depth, n - 1, k) by {}
        if fate_of(samples[n - 1], d, max_depth) == Fate::Subdivide {
            let p = cells[n - 1];
            let kids = children_spec(p);
            assert(next == before + kids);
            assert(level_at(seq![p], d)) by {
                assert(seq![p][0] == p);
            }
            assert forall|k: int| 0 <= k < next.len() implies {
                let o = #[trigger] origin(cells, samples, d, max_depth, n, k);
                &&& 0 <= o.0 < n
                &&& 0 <= o.1 < 8
                &&& next[k] == child_spec(cells[o.0], o.1)
            } by {
                if k < before.len() {
                    assert(next[k] == before[k]);
                    assert(origin(cells, samples, d, max_depth, n - 1, k) == origin(cells, samples, d, max_depth, n, k));
                } else {
                    assert(next[k] == kids[k - before.len()]);
                }
            }
            assert forall|i: int, j: int| 0 <= i < j < next.len() implies !same_pos(
                #[trigger] next[i],
                #[trigger] next[j],
            ) by {
                if j < before.len() {
                    assert(next[i] == before[i]);
                    assert(next[j] == before[j]);
                } else if i < before.len() {
                    assert(next[i] == before[i]);
                    let o = origin(cells, samples, d, max_depth, n - 1, i);
                    let cj = j - before.len();
                    assert(next[j] == child_spec(p, cj));
                    if same_pos(next[i], next[j]) {
                        let q = cells[o.0];
                        assert(level_at(seq![q], d)) by {
                            assert(seq![q][0] == q);
                        }
                        lemma_children_apart(q, p, o.1, cj, d);
                        assert(!same_pos(cells[o.0], cells[n - 1]));
                    }
                } else {
                    let ci = i - before.len();
                    let cj = j - before.len();
                    assert(next[i] == child_spec(p, ci));
                    assert(next[j] == child_spec(p, cj));
                    if same_pos(next[i], next[j]) {
                        lemma_children_apart(p, p, ci, cj, d);
                    }
                }
            }
        } else {
            assert(next == before);
        }
    }
}

/// No cell is searched twice: the first level's cells are distinct, and
/// from a level of distinct cells, with a depth limit of at most fifteen,
/// the next level's cells are distinct too.
pub proof fn law_cells_distinct(cells: Seq<CellPos>, samples: Seq<CellSample>, d: u8, max_depth: u8)
    requires
        cells.len() == samples.len(),
        level_at(cells, d),
        distinct_cells(cells),
        max_depth <= 15,
    ensures
        distinct_cells(children_spec(CellPos { pos: [0, 0, 0], depth: 0 })),
        distinct_cells(next_level(cells, samples, d, max_depth, cells.len() as int)),
{
    let root = CellPos { pos: [0, 0, 0], depth: 0 };
    vstd::arithmetic::power2::lemma2_to64();
    assert(level_at(seq![root], 0)) by {
        assert(seq![root][0] == root);
    }
    let kids = children_spec(root);
    assert forall|i: int, j: int| 0 <= i < j < kids.len() implies !same_pos(#[trigger] kids[i], #[trigger] kids[j]) by {
        if same_pos(kids[i], kids[j]) {
            lemma_children_apart(root, root, i, j, 0);
        }
    }
    if d >= max_depth {
        lemma_next_level_empty(cells, samples, d, max_depth, cells.len() as int);
    } else {
        lemma_next_level_distinct(cells, samples, d, max_depth, cells.len() as int);
    }
}

// ── What becomes of a cell ───────────────────────────────────────────────────

/// Some corner of the sample is at or below the surface and some corner is
/// above it, read off the sample's flags.
pub open spec fn corners_on_both_sides(s: CellSample) -> bool {
    (exists|i: int| 0 <= i < 8 && #[trigger] s.below[i]) && (exists|j: int| 0 <= j < 8 && #[trigger] s.above[j])
}

/// The fate of a cell, in terms of its corners: at the depth limit a cell
/// is kept exactly when its corners lie on both sides of the surface,
/// whatever their distances; below the limit it is split exactly when its
/// corners lie on both sides or some corner is near the surface; every
/// other cell is dropped.
pub proof fn law_cell_fates(s: CellSample, depth: u8, max_depth: u8)
    ensures
        depth >= max_depth && corners_on_both_sides(s) ==> fate_of(s, depth, max_depth) == Fate::Keep,
        depth >= max_depth && !corners_on_both_sides(s) ==> fate_of(s, depth, max_depth) == Fate::Discard,
        depth < max_depth && (corners_on_both_sides(s) || exists|i: int| 0 <= i < 8 && #[trigger] s.close[i])
            ==> fate_of(s, depth, max_depth) == Fate::Subdivide,
        depth < max_depth && !(corners_on_both_sides(s) || exists|i: int| 0 <= i < 8 && #[trigger] s.close[i])
            ==> fate_of(s, depth, max_depth) == Fate::Discard,
{
}

/// A level keeps exactly its cells that lie on both sides of the surface
/// when it is at the depth limit, and none otherwise; it is split into the
/// children of exactly the cells whose fate is to be split.
pub proof fn law_level_keeps_straddling(samples: Seq<CellSample>, d: u8, max_depth: u8, n: int)
    requires
        0 <= n <= samples.len(),
        n <= usize::MAX,
    ensures
        forall|i: int|
            0 <= i < n ==> (kept_cells(samples, d, max_depth, n).contains(i as usize) <==> (d >= max_depth
                && corners_on_both_sides(#[trigger] samples[i]))),
    decreases n,
{
    if n > 0 {
        law_level_keeps_straddling(samples, d, max_depth, n - 1);
        law_cell_fates(samples[n - 1], d, max_depth);
        let before = kept_cells(samples, d, max_depth, n - 1);
        let kept = kept_cells(samples, d, max_depth, n);
        lemma_kept_cells(samples, d, max_depth, n - 1);
        assert forall|i: int| 0 <= i < n implies (kept.contains(i as usize) <==> (d >= max_depth
            && corners_on_both_sides(#[trigger] samples[i]))) by {
            law_cell_fates(samples[i], d, max_depth);
            if i < n - 1 {
                if fate_of(samples[n - 1], d, max_depth) == Fate::Keep {
                    assert(kept == before.push((n - 1) as usize));
                    if kept.contains(i as usize) {
                        let k = choose|k: int| 0 <= k < kept.len() && kept[k] == i as usize;
                        if k < before.len() {
                            assert(before[k] == kept[k]);
                        }
                    }
                    if before.contains(i as usize) {
                        let k = choose|k: int| 0 <= k < before.len() && before[k] == i as usize;
                        assert(kept[k] == before[k]);
                    }
                }
            } else {
                if fate_of(samples[n - 1], d, max_depth) == Fate::Keep {
                    assert(kept[kept.len() - 1] == (n - 1) as usize);
                } else {
                    if before.contains(i as usize) {
                        let k = choose|k: int| 0 <= k < before.len() && before[k] == i as usize;
                        assert(before[k] < n - 1);
                    }
                }
            }
        }
    }
}

// ── Which cells the next level holds ─────────────────────────────────────────

/// Child `i` of a cell on the grid of a depth below fifteen lies one level
/// deeper, inside its parent, in the octant of corner `i`: along each axis
/// its coordinate halves to the parent's, and its low bit is the offset of
/// corner `i` along that axis.
pub proof fn law_child_in_octant(p: CellPos, i: int, d: u8)
    requires
        0 <= i < 8,
        d < 15,
        level_at(seq![p], d),
    ensures
        child_spec(p, i).depth == d + 1,
        child_spec(p, i).pos[0] / 2 == p.pos[0] && child_spec(p, i).pos[0] % 2 == i % 2,
        child_spec(p, i).pos[1] / 2 == p.pos[1] && child_spec(p, i).pos[1] % 2 == (i / 2) % 2,
        child_spec(p, i).pos[2] / 2 == p.pos[2] && child_spec(p, i).pos[2] % 2 == (i / 4) % 2,
{
    assert(seq![p][0] == p);
    vstd::arithmetic::power2::lemma2_to64();
    if d < 15 {
        lemma_pow2_strictly_increases(d as nat, 15);
    }
}

proof fn lemma_next_level_members(cells: Seq<CellPos>, samples: Seq<CellSample>, d: u8, max_depth: u8, n: int)
    requires
        0 <= n <= cells.len(),
        n <= samples.len(),
    ensures
        forall|i: int, c: int|
            0 <= i < n && 0 <= c < 8 && fate_of(samples[i], d, max_depth) == Fate::Subdivide ==> next_level(
                cells,
                samples,
                d,
                max_depth,
                n,
            ).contains(#[trigger] child_spec(cells[i], c)),
        forall|k: int|
            0 <= k < next_level(cells, samples, d, max_depth, n).len() ==> {
                let o = #[trigger] origin(cells, samples, d, max_depth, n, k);
                &&& 0 <= o.0 < n
                &&& 0 <= o.1 < 8
                &&& fate_of(samples[o.0], d, max_depth) == Fate::Subdivide
                &&& next_level(cells, samples, d, max_depth, n)[k] == child_spec(cells[o.0], o.1)
            },
    decreases n,
{
    if n > 0 {
        lemma_next_level_members(cells, samples, d, max_depth, n - 1);
        let before = next_level(cells, samples, d, max_depth, n - 1);
        let next = next_level(cells, samples, d, max_depth, n);
        assert forall|k: int| 0 <= k < before.len() implies #[trigger] origin(cells, samples, d, max_depth, n, k)
            == origin(cells, samples, d, max_depth, n - 1, k) by {}
        if fate_of(samples[n - 1], d, max_depth) == Fate::Subdivide {
            let kids = children_spec(cells[n - 1]);
            assert(next == before + kids);
            assert forall|i: int, c: int|
                0 <= i < n && 0 <= c < 8 && fate_of(samples[i], d, max_depth) == Fate::Subdivide implies next.contains(
                #[trigger] child_spec(cells[i], c),
            ) by {
                if i < n - 1 {
                    let k = choose|k: int| 0 <= k < before.len() && before[k] == child_spec(cells[i], c);
                    assert(next[k] == before[k]);
                } else {
                    assert(next[before.len() + c] == kids[c]);
                }
            }
            assert forall|k: int| 0 <= k < next.len() implies {
                let o = #[trigger] origin(cells, samples, d, max_depth, n, k);
                &&& 0 <= o.0 < n
                &&& 0 <= o.1 < 8
                &&& fate_of(samples[o.0], d, max_depth) == Fate::Subdivide
                &&& next[k] == child_spec(cells[o.0], o.1)
            } by {
                if k < before.len() {
                    assert(next[k] == before[k]);
                } else {
                    assert(next[k] == kids[k - before.len()]);
                }
            }
        } else {
            assert(next == before);
        }
    }
}

/// `x` is a child of a cell of the level `cells` whose fate is to be split.
pub open spec fn child_of_split(cells: Seq<CellPos>, samples: Seq<CellSample>, d: u8, max_depth: u8, x: CellPos) -> bool {
    exists|i: int, c: int|
        #![trigger child_spec(cells[i], c)]
        0 <= i < cells.len() && 0 <= c < 8 && fate_of(samples[i], d, max_depth) == Fate::Subdivide && x == child_spec(
            cells[i],
            c,
        )
}

/// The next level holds every child of every cell that is split, and
/// nothing else: each of its cells is a child of a cell of this level whose
/// fate is to be split.
pub proof fn law_next_level_children(cells: Seq<CellPos>, samples: Seq<CellSample>, d: u8, max_depth: u8)
    requires
        cells.len() == samples.len(),
    ensures
        forall|i: int, c: int|
            0 <= i < cells.len() && 0 <= c < 8 && fate_of(samples[i], d, max_depth) == Fate::Subdivide
                ==> next_level(cells, samples, d, max_depth, cells.len() as int).contains(
                #[trigger] child_spec(cells[i], c),
            ),
        forall|k: int|
            0 <= k < next_level(cells, samples, d, max_depth, cells.len() as int).len() ==> child_of_split(
                cells,
                samples,
                d,
                max_depth,
                #[trigger] next_level(cells, samples, d, max_depth, cells.len() as int)[k],
            ),
{
    let n = cells.len() as int;
    lemma_next_level_members(cells, samples, d, max_depth, n);
    assert forall|k: int| 0 <= k < next_level(cells, samples, d, max_depth, n).len() implies child_of_split(
        cells,
        samples,
        d,
        max_depth,
        #[trigger] next_level(cells, samples, d, max_depth, n)[k],
    ) by {
        let o = origin(cells, samples, d, max_depth, n, k);
        assert(next_level(cells, samples, d, max_depth, n)[k] == child_spec(cells[o.0], o.1));
    }
}

} // verus!
