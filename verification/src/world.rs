//! The mutable voxel world: a cubic volume of side `2^depth`, stored
//! sparsely as a strictly ordered point set of non-empty cells, with a
//! canonical byte serialization for upload to a GPU storage buffer.
//!
//! The representation keeps exactly the non-empty cells, ordered
//! lexicographically by coordinate. Setting a cell to the empty sentinel
//! removes it, so the stored form never grows with dead entries and the
//! serialized bytes are a function of the cell contents alone.

use vstd::prelude::*;
use crate::voxel::Voxel;

verus! {

/// One stored cell: in-bounds coordinates and a non-empty packed color.
#[derive(Clone, Copy, PartialEq, Eq, Structural, Debug)]
pub struct Cell {
    pub x: u32,
    pub y: u32,
    pub z: u32,
    pub color: u32,
}

/// Strict lexicographic order on cell coordinates.
pub open spec fn key_lt(a: Cell, b: Cell) -> bool {
    a.x < b.x || (a.x == b.x && (a.y < b.y || (a.y == b.y && a.z < b.z)))
}

/// Two cells address the same coordinate.
pub open spec fn same_key(a: Cell, b: Cell) -> bool {
    a.x == b.x && a.y == b.y && a.z == b.z
}

/// A cell lies inside the cube of the given side and is non-empty.
pub open spec fn cell_ok(c: Cell, side: u32) -> bool {
    c.x < side && c.y < side && c.z < side && c.color != 0
}

/// Every stored cell is in bounds and non-empty.
pub open spec fn cells_valid(s: Seq<Cell>, side: u32) -> bool {
    forall|i: int| 0 <= i < s.len() ==> cell_ok(#[trigger] s[i], side)
}

/// The cells are strictly ordered by coordinate, so each coordinate
/// occurs at most once.
pub open spec fn cells_ordered(s: Seq<Cell>) -> bool {
    forall|i: int, j: int| 0 <= i < j < s.len() ==> key_lt(#[trigger] s[i], #[trigger] s[j])
}

/// Well-formedness of the stored cell sequence.
pub open spec fn wf_cells(s: Seq<Cell>, side: u32) -> bool {
    cells_valid(s, side) && cells_ordered(s)
}

/// Writing `c` into an ordered cell sequence: replaces the cell with the
/// same coordinate, inserts in order, or — when the color is the empty
/// sentinel — removes the coordinate.
pub open spec fn spec_set(s: Seq<Cell>, c: Cell) -> Seq<Cell>
    decreases s.len(),
{
    if s.len() == 0 {
        if c.color == 0 {
            s
        } else {
            seq![c]
        }
    } else if key_lt(s[0], c) {
        seq![s[0]] + spec_set(s.drop_first(), c)
    } else if same_key(s[0], c) {
        if c.color == 0 {
            s.drop_first()
        } else {
            seq![c] + s.drop_first()
        }
    } else {
        if c.color == 0 {
            s
        } else {
            seq![c] + s
        }
    }
}

/// A write to the world: in-bounds coordinates go through `spec_set`,
/// anything outside the cube is ignored.
pub open spec fn spec_world_set(
    s: Seq<Cell>,
    side: u32,
    x: int,
    y: int,
    z: int,
    color: u32,
) -> Seq<Cell> {
    if 0 <= x < side && 0 <= y < side && 0 <= z < side {
        spec_set(s, Cell { x: x as u32, y: y as u32, z: z as u32, color })
    } else {
        s
    }
}

/// The four little-endian bytes of a 32-bit value.
pub open spec fn le_bytes32(v: u32) -> Seq<u8> {
    seq![
        (v % 0x100) as u8,
        ((v / 0x100) % 0x100) as u8,
        ((v / 0x1_0000) % 0x100) as u8,
        ((v / 0x100_0000) % 0x100) as u8,
    ]
}

/// The serialized form of one cell: x, y, z, color, each as four
/// little-endian bytes.
pub open spec fn cell_bytes(c: Cell) -> Seq<u8> {
    le_bytes32(c.x) + le_bytes32(c.y) + le_bytes32(c.z) + le_bytes32(c.color)
}

/// The serialized form of the whole cell sequence, in storage order.
pub open spec fn spec_serialize(s: Seq<Cell>) -> Seq<u8>
    decreases s.len(),
{
    if s.len() == 0 {
        Seq::empty()
    } else {
        spec_serialize(s.drop_last()) + cell_bytes(s.last())
    }
}

/// Every cell of `spec_set(s, c)` is `c` or comes from `s`.
proof fn lemma_spec_set_elems(s: Seq<Cell>, c: Cell)
    ensures
        forall|i: int|
            0 <= i < spec_set(s, c).len() ==> #[trigger] spec_set(s, c)[i] == c || s.contains(
                spec_set(s, c)[i],
            ),
    decreases s.len(),
{
    if s.len() == 0 {
    } else if key_lt(s[0], c) {
        lemma_spec_set_elems(s.drop_first(), c);
        assert forall|i: int| 0 <= i < spec_set(s, c).len() implies #[trigger] spec_set(s, c)[i]
            == c || s.contains(spec_set(s, c)[i]) by {
            if i == 0 {
                assert(s.contains(s[0]));
            } else {
                let t = spec_set(s.drop_first(), c);
                assert(spec_set(s, c)[i] == t[i - 1]);
                let e = t[i - 1];
                if e != c {
                    assert(s.drop_first().contains(e));
                    let j = choose|j: int| 0 <= j < s.drop_first().len() && s.drop_first()[j] == e;
                    assert(s[j + 1] == e);
                }
            }
        }
    } else {
        assert forall|i: int| 0 <= i < spec_set(s, c).len() implies #[trigger] spec_set(s, c)[i]
            == c || s.contains(spec_set(s, c)[i]) by {
            let r = spec_set(s, c);
            if r[i] != c {
                if same_key(s[0], c) {
                    if c.color == 0 {
                        assert(r[i] == s[i + 1]);
                    } else {
                        assert(r[i] == s[i]);
                    }
                } else if c.color == 0 {
                    assert(s.contains(r[i]));
                } else {
                    assert(r[i] == s[i - 1]);
                }
            }
        }
    }
}

/// `spec_set` keeps the sequence well formed when the written cell is in
/// bounds.
proof fn lemma_spec_set_wf(s: Seq<Cell>, c: Cell, side: u32)
    requires
        wf_cells(s, side),
        c.x < side,
        c.y < side,
        c.z < side,
    ensures
        wf_cells(spec_set(s, c), side),
    decreases s.len(),
{
    lemma_spec_set_elems(s, c);
    let r = spec_set(s, c);
    if s.len() == 0 {
    } else if key_lt(s[0], c) {
        let rest = s.drop_first();
        assert(wf_cells(rest, side)) by {
            assert forall|i: int| 0 <= i < rest.len() implies cell_ok(#[trigger] rest[i], side) by {
                assert(rest[i] == s[i + 1]);
            }
        }
        lemma_spec_set_wf(rest, c, side);
        lemma_spec_set_elems(rest, c);
        let t = spec_set(rest, c);
        assert forall|i: int, j: int| 0 <= i < j < r.len() implies key_lt(
            #[trigger] r[i],
            #[trigger] r[j],
        ) by {
            if i == 0 {
                assert(r[j] == t[j - 1]);
                if t[j - 1] == c {
                } else {
                    let k = choose|k: int| 0 <= k < rest.len() && rest[k] == t[j - 1];
                    assert(s[k + 1] == t[j - 1]);
                    assert(key_lt(s[0], s[k + 1]));
                }
            } else {
                assert(r[i] == t[i - 1] && r[j] == t[j - 1]);
            }
        }
        assert forall|i: int| 0 <= i < r.len() implies cell_ok(#[trigger] r[i], side) by {
            if i == 0 {
            } else {
                assert(r[i] == t[i - 1]);
            }
        }
    } else if same_key(s[0], c) {
        assert forall|i: int| 0 <= i < r.len() implies cell_ok(#[trigger] r[i], side) by {
            if c.color == 0 {
                assert(r[i] == s[i + 1]);
            } else if i > 0 {
                assert(r[i] == s[i]);
            }
        }
        assert forall|i: int, j: int| 0 <= i < j < r.len() implies key_lt(
            #[trigger] r[i],
            #[trigger] r[j],
        ) by {
            if c.color == 0 {
                assert(r[i] == s[i + 1] && r[j] == s[j + 1]);
            } else {
                if i == 0 {
                    assert(r[j] == s[j]);
                    assert(key_lt(s[0], s[j]));
                } else {
                    assert(r[i] == s[i] && r[j] == s[j]);
                }
            }
        }
    } else {
        if c.color != 0 {
            assert forall|i: int| 0 <= i < r.len() implies cell_ok(#[trigger] r[i], side) by {
                if i > 0 {
                    assert(r[i] == s[i - 1]);
                }
            }
            assert forall|i: int, j: int| 0 <= i < j < r.len() implies key_lt(
                #[trigger] r[i],
                #[trigger] r[j],
            ) by {
                if i == 0 {
                    assert(r[j] == s[j - 1]);
                    if j - 1 > 0 {
                        assert(key_lt(s[0], s[j - 1]));
                    }
                } else {
                    assert(r[i] == s[i - 1] && r[j] == s[j - 1]);
                }
            }
        }
    }
}

/// What `spec_set` yields at the first position `i` whose cell does not
/// come before `c`: a replacement, a removal, an insertion, or nothing.
proof fn lemma_spec_set_split(s: Seq<Cell>, c: Cell, i: int)
    requires
        0 <= i <= s.len(),
        forall|j: int| 0 <= j < i ==> key_lt(#[trigger] s[j], c),
        i < s.len() ==> !key_lt(s[i], c),
    ensures
        spec_set(s, c) == (if i < s.len() && same_key(s[i], c) {
            if c.color == 0 {
                s.remove(i)
            } else {
                s.update(i, c)
            }
        } else {
            if c.color == 0 {
                s
            } else {
                s.insert(i, c)
            }
        }),
    decreases i,
{
    if i == 0 {
        if s.len() == 0 {
            if c.color != 0 {
                assert(spec_set(s, c) =~= s.insert(0, c));
            }
        } else if same_key(s[0], c) {
            if c.color == 0 {
                assert(spec_set(s, c) =~= s.remove(0));
            } else {
                assert(spec_set(s, c) =~= s.update(0, c));
            }
        } else {
            if c.color != 0 {
                assert(spec_set(s, c) =~= s.insert(0, c));
            }
        }
    } else {
        let rest = s.drop_first();
        assert(key_lt(s[0], c));
        lemma_spec_set_split(rest, c, i - 1);
        assert(spec_set(s, c) == seq![s[0]] + spec_set(rest, c));
        if i < s.len() && same_key(s[i], c) {
            assert(rest[i - 1] == s[i]);
            if c.color == 0 {
                assert(seq![s[0]] + rest.remove(i - 1) =~= s.remove(i));
            } else {
                assert(seq![s[0]] + rest.update(i - 1, c) =~= s.update(i, c));
            }
        } else {
            if c.color == 0 {
                assert(seq![s[0]] + rest =~= s);
            } else {
                assert(seq![s[0]] + rest.insert(i - 1, c) =~= s.insert(i, c));
            }
        }
    }
}

/// Writing the empty sentinel at a coordinate that no cell holds changes
/// nothing.
proof fn lemma_spec_set_absent_clear(s: Seq<Cell>, c: Cell)
    requires
        c.color == 0,
        forall|i: int| 0 <= i < s.len() ==> !same_key(#[trigger] s[i], c),
    ensures
        spec_set(s, c) == s,
    decreases s.len(),
{
    if s.len() == 0 {
    } else if key_lt(s[0], c) {
        let rest = s.drop_first();
        assert forall|i: int| 0 <= i < rest.len() implies !same_key(#[trigger] rest[i], c) by {
            assert(rest[i] == s[i + 1]);
        }
        lemma_spec_set_absent_clear(rest, c);
        assert(seq![s[0]] + rest =~= s);
    }
}

/// Writing the same cell twice is the same as writing it once.
proof fn lemma_spec_set_idempotent(s: Seq<Cell>, c: Cell)
    requires
        cells_ordered(s),
    ensures
        spec_set(spec_set(s, c), c) == spec_set(s, c),
    decreases s.len(),
{
    if s.len() == 0 {
        if c.color != 0 {
            assert(spec_set(spec_set(s, c), c) =~= spec_set(s, c));
        }
    } else if key_lt(s[0], c) {
        let rest = s.drop_first();
        assert(cells_ordered(rest)) by {
            assert forall|i: int, j: int| 0 <= i < j < rest.len() implies key_lt(
                #[trigger] rest[i],
                #[trigger] rest[j],
            ) by {
                assert(rest[i] == s[i + 1] && rest[j] == s[j + 1]);
            }
        }
        lemma_spec_set_idempotent(rest, c);
        let t = spec_set(rest, c);
        let r = seq![s[0]] + t;
        assert(spec_set(s, c) == r);
        assert(r.len() > 0 && r[0] == s[0]);
        assert(r.drop_first() =~= t);
        assert(spec_set(r, c) == seq![s[0]] + spec_set(t, c));
    } else if same_key(s[0], c) {
        let rest = s.drop_first();
        if c.color == 0 {
            assert forall|i: int| 0 <= i < rest.len() implies !same_key(#[trigger] rest[i], c) by {
                assert(rest[i] == s[i + 1]);
                assert(key_lt(s[0], s[i + 1]));
            }
            lemma_spec_set_absent_clear(rest, c);
        } else {
            let r = seq![c] + rest;
            assert(spec_set(s, c) == r);
            assert(r[0] == c && same_key(r[0], c) && !key_lt(r[0], c));
            assert(r.drop_first() =~= rest);
            assert(spec_set(r, c) =~= seq![c] + rest);
        }
    } else {
        if c.color == 0 {
        } else {
            let r = seq![c] + s;
            assert(spec_set(s, c) == r);
            assert(r[0] == c && same_key(r[0], c) && !key_lt(r[0], c));
            assert(r.drop_first() =~= s);
            assert(spec_set(r, c) =~= seq![c] + s);
        }
    }
}

/// Writing a non-empty cell at a fresh coordinate and then clearing that
/// coordinate restores the sequence exactly.
proof fn lemma_spec_set_round_trip(s: Seq<Cell>, c: Cell, e: Cell)
    requires
        cells_ordered(s),
        c.color != 0,
        e.color == 0,
        same_key(e, c),
        forall|i: int| 0 <= i < s.len() ==> !same_key(#[trigger] s[i], c),
    ensures
        spec_set(spec_set(s, c), e) == s,
    decreases s.len(),
{
    if s.len() == 0 {
        let r = seq![c];
        assert(spec_set(s, c) == r);
        assert(!key_lt(r[0], e) && same_key(r[0], e));
        assert(spec_set(r, e) =~= s);
    } else if key_lt(s[0], c) {
        let rest = s.drop_first();
        assert(cells_ordered(rest)) by {
            assert forall|i: int, j: int| 0 <= i < j < rest.len() implies key_lt(
                #[trigger] rest[i],
                #[trigger] rest[j],
            ) by {
                assert(rest[i] == s[i + 1] && rest[j] == s[j + 1]);
            }
        }
        assert forall|i: int| 0 <= i < rest.len() implies !same_key(#[trigger] rest[i], c) by {
            assert(rest[i] == s[i + 1]);
        }
        lemma_spec_set_round_trip(rest, c, e);
        let t = spec_set(rest, c);
        let r = seq![s[0]] + t;
        assert(spec_set(s, c) == r);
        assert(r[0] == s[0] && key_lt(r[0], e));
        assert(r.drop_first() =~= t);
        assert(spec_set(r, e) == seq![s[0]] + spec_set(t, e));
        assert(seq![s[0]] + rest =~= s);
    } else {
        assert(!same_key(s[0], c));
        let r = seq![c] + s;
        assert(spec_set(s, c) == r);
        assert(r[0] == c && !key_lt(r[0], e) && same_key(r[0], e));
        assert(spec_set(r, e) =~= s);
    }
}

/// Overwrite idempotence: performing the same world write twice leaves
/// the cells, and hence the serialized bytes, exactly as one write does.
pub proof fn lemma_overwrite_idempotent(s: Seq<Cell>, side: u32, x: int, y: int, z: int, color: u32)
    requires
        wf_cells(s, side),
    ensures
        spec_world_set(spec_world_set(s, side, x, y, z, color), side, x, y, z, color)
            == spec_world_set(s, side, x, y, z, color),
        spec_serialize(
            spec_world_set(spec_world_set(s, side, x, y, z, color), side, x, y, z, color),
        ) == spec_serialize(spec_world_set(s, side, x, y, z, color)),
{
    if 0 <= x < side && 0 <= y < side && 0 <= z < side {
        let c = Cell { x: x as u32, y: y as u32, z: z as u32, color };
        lemma_spec_set_idempotent(s, c);
    }
}

/// Empty round-trip: writing a non-empty value at a never-touched
/// coordinate and then writing the empty sentinel there restores the
/// cells, and hence the serialized bytes, exactly.
pub proof fn lemma_empty_round_trip(s: Seq<Cell>, side: u32, x: int, y: int, z: int, color: u32)
    requires
        wf_cells(s, side),
        color != 0,
        forall|i: int|
            0 <= i < s.len() ==> !((#[trigger] s[i]).x == x && s[i].y == y && s[i].z == z),
    ensures
        spec_world_set(spec_world_set(s, side, x, y, z, color), side, x, y, z, 0) == s,
        spec_serialize(spec_world_set(spec_world_set(s, side, x, y, z, color), side, x, y, z, 0))
            == spec_serialize(s),
{
    if 0 <= x < side && 0 <= y < side && 0 <= z < side {
        let c = Cell { x: x as u32, y: y as u32, z: z as u32, color };
        let e = Cell { x: x as u32, y: y as u32, z: z as u32, color: 0 };
        lemma_spec_set_round_trip(s, c, e);
    }
}

/// Bounds safety: a write outside the cube changes nothing at all, so it
/// cannot disturb any in-bounds cell.
pub proof fn lemma_out_of_bounds_noop(s: Seq<Cell>, side: u32, x: int, y: int, z: int, color: u32)
    requires
        !(0 <= x < side && 0 <= y < side && 0 <= z < side),
    ensures
        spec_world_set(s, side, x, y, z, color) == s,
{
}

/// Whether cell `a` sorts strictly before `b`.
fn cell_before(a: &Cell, b: &Cell) -> (r: bool)
    ensures
        r == key_lt(*a, *b),
{
    a.x < b.x || (a.x == b.x && (a.y < b.y || (a.y == b.y && a.z < b.z)))
}

/// Appends the four little-endian bytes of `v`.
fn push_le32(out: &mut Vec<u8>, v: u32)
    ensures
        final(out)@ == old(out)@ + le_bytes32(v),
{
    proof {
        assert((v & 0xff) == v % 0x100 && ((v >> 8) & 0xff) == (v / 0x100) % 0x100 && ((v >> 16)
            & 0xff) == (v / 0x1_0000) % 0x100 && ((v >> 24) & 0xff) == (v / 0x100_0000) % 0x100
            && v % 0x100 < 0x100 && (v / 0x100) % 0x100 < 0x100 && (v / 0x1_0000) % 0x100 < 0x100
            && (v / 0x100_0000) % 0x100 < 0x100) by (bit_vector);
    }
    out.push((v & 0xff) as u8);
    out.push(((v >> 8) & 0xff) as u8);
    out.push(((v >> 16) & 0xff) as u8);
    out.push(((v >> 24) & 0xff) as u8);
    proof {
        assert(final(out)@ =~= old(out)@ + le_bytes32(v));
    }
}

/// One entry of a decoded voxel-model asset: a position in the asset's
/// own coordinate convention and an index into its palette.
#[derive(Clone, Copy, PartialEq, Eq, Structural, Debug)]
pub struct ModelVoxel {
    pub x: u8,
    pub y: u8,
    pub z: u8,
    pub color_index: u8,
}

/// One palette entry of a decoded voxel-model asset.
#[derive(Clone, Copy, PartialEq, Eq, Structural, Debug)]
pub struct PaletteColor {
    pub r: u8,
    pub g: u8,
    pub b: u8,
    pub a: u8,
}

/// The world after writing every model entry in order: each entry's
/// palette color becomes a fully opaque voxel at the entry's position,
/// with the asset's Y and Z axes swapped into the world's convention.
pub open spec fn spec_populate(
    s: Seq<Cell>,
    side: u32,
    vox: Seq<ModelVoxel>,
    pal: Seq<PaletteColor>,
) -> Seq<Cell>
    decreases vox.len(),
{
    if vox.len() == 0 {
        s
    } else {
        let v = vox[0];
        let c = pal[v.color_index as int];
        spec_populate(
            spec_world_set(
                s,
                side,
                v.x as int,
                v.z as int,
                v.y as int,
                crate::voxel::pack_rgba(c.r, c.g, c.b, 255),
            ),
            side,
            vox.drop_first(),
            pal,
        )
    }
}

/// The voxel world: a cube of side `2^depth` holding one voxel per
/// coordinate, empty cells left unstored.
pub struct World {
    side: u32,
    cells: Vec<Cell>,
}

impl World {
    /// The side length of the cube; coordinates range over `[0, side)`.
    pub closed spec fn side_len(self) -> u32 {
        self.side
    }

    /// The stored cells, in their canonical order.
    pub closed spec fn cells(self) -> Seq<Cell> {
        self.cells@
    }

    /// The world's representation invariant.
    pub open spec fn wf(self) -> bool {
        wf_cells(self.cells(), self.side_len())
    }

    /// Whether a coordinate lies inside the cube.
    pub open spec fn in_bounds(self, x: int, y: int, z: int) -> bool {
        0 <= x < self.side_len() && 0 <= y < self.side_len() && 0 <= z < self.side_len()
    }

    /// An empty world of side `2^depth`.
    pub fn new(depth: u32) -> (w: World)
        requires
            depth <= 30,
        ensures
            w.wf(),
            w.cells() == Seq::<Cell>::empty(),
            w.side_len() == (1u32 << depth),
    {
        World { side: 1u32 << depth, cells: Vec::new() }
    }

    /// The side length, for bounds checks outside the library.
    pub fn side(&self) -> (s: u32)
        ensures
            s == self.side_len(),
    {
        self.side
    }

    /// Writes a voxel at the given coordinate. Writing the empty voxel
    /// removes the cell; a coordinate outside the cube is ignored.
    pub fn set(&mut self, x: i32, y: i32, z: i32, v: Voxel)
        requires
            old(self).wf(),
        ensures
            final(self).wf(),
            final(self).side_len() == old(self).side_len(),
            final(self).cells() == spec_world_set(
                old(self).cells(),
                old(self).side_len(),
                x as int,
                y as int,
                z as int,
                v.bits(),
            ),
    {
        if x < 0 || y < 0 || z < 0 {
            return ;
        }
        let ux = x as u32;
        let uy = y as u32;
        let uz = z as u32;
        if ux >= self.side || uy >= self.side || uz >= self.side {
            return ;
        }
        let c = Cell { x: ux, y: uy, z: uz, color: v.packed() };
        let ghost s0 = self.cells@;
        let mut i: usize = 0;
        while i < self.cells.len() && cell_before(&self.cells[i], &c)
            invariant
                i <= self.cells.len(),
                self.cells@ == s0,
                forall|j: int| 0 <= j < i ==> key_lt(#[trigger] s0[j], c),
            decreases self.cells.len() - i,
        {
            i += 1;
        }
        proof {
            lemma_spec_set_split(s0, c, i as int);
            lemma_spec_set_wf(s0, c, self.side);
        }
        if i < self.cells.len() && self.cells[i].x == ux && self.cells[i].y == uy
            && self.cells[i].z == uz {
            if c.color == 0 {
                self.cells.remove(i);
            } else {
                self.cells.remove(i);
                self.cells.insert(i, c);
                proof {
                    assert(s0.remove(i as int).insert(i as int, c) =~= s0.update(i as int, c));
                }
            }
        } else {
            if c.color != 0 {
                self.cells.insert(i, c);
            }
        }
    }

    /// Writes a decoded voxel-model asset into the world: every entry's
    /// palette color, fully opaque, at the entry's position with the
    /// asset's Y and Z axes swapped.
    pub fn populate(&mut self, voxels: &Vec<ModelVoxel>, palette: &Vec<PaletteColor>)
        requires
            old(self).wf(),
            palette@.len() == 256,
        ensures
            final(self).wf(),
            final(self).side_len() == old(self).side_len(),
            final(self).cells() == spec_populate(
                old(self).cells(),
                old(self).side_len(),
                voxels@,
                palette@,
            ),
    {
        let ghost s0 = self.cells@;
        let ghost side = self.side;
        proof {
            assert(voxels@.skip(0) =~= voxels@);
        }
        let mut i: usize = 0;
        while i < voxels.len()
            invariant
                i <= voxels.len(),
                self.wf(),
                self.side_len() == side,
                palette@.len() == 256,
                spec_populate(self.cells(), side, voxels@.skip(i as int), palette@)
                    == spec_populate(s0, side, voxels@, palette@),
            decreases voxels.len() - i,
        {
            let v = voxels[i];
            let c = palette[v.color_index as usize];
            let ghost before = self.cells@;
            self.world_set_entry(v, c);
            proof {
                let rest = voxels@.skip(i as int);
                assert(rest[0] == v);
                assert(rest.drop_first() =~= voxels@.skip(i as int + 1));
                assert(spec_populate(before, side, rest, palette@) == spec_populate(
                    self.cells(),
                    side,
                    voxels@.skip(i as int + 1),
                    palette@,
                ));
            }
            i += 1;
        }
        proof {
            assert(voxels@.skip(voxels@.len() as int) =~= Seq::<ModelVoxel>::empty());
        }
    }

    /// Writes one model entry: its palette color at its position, with
    /// the asset's Y and Z axes swapped.
    fn world_set_entry(&mut self, v: ModelVoxel, c: PaletteColor)
        requires
            old(self).wf(),
        ensures
            final(self).wf(),
            final(self).side_len() == old(self).side_len(),
            final(self).cells() == spec_world_set(
                old(self).cells(),
                old(self).side_len(),
                v.x as int,
                v.z as int,
                v.y as int,
                crate::voxel::pack_rgba(c.r, c.g, c.b, 255),
            ),
    {
        self.set(v.x as i32, v.z as i32, v.y as i32, Voxel::new(c.r, c.g, c.b));
    }

    /// The complete serialized byte form of the world: sixteen bytes per
    /// stored cell, in storage order.
    pub fn serialize(&self) -> (b: Vec<u8>)
        ensures
            b@ == spec_serialize(self.cells()),
    {
        let mut out: Vec<u8> = Vec::new();
        let mut i: usize = 0;
        while i < self.cells.len()
            invariant
                i <= self.cells.len(),
                out@ == spec_serialize(self.cells@.take(i as int)),
            decreases self.cells.len() - i,
        {
            let c = self.cells[i];
            proof {
                let t = self.cells@.take(i as int + 1);
                assert(t.drop_last() =~= self.cells@.take(i as int));
                assert(t.last() == c);
            }
            push_le32(&mut out, c.x);
            push_le32(&mut out, c.y);
            push_le32(&mut out, c.z);
            push_le32(&mut out, c.color);
            proof {
                assert(out@ =~= spec_serialize(self.cells@.take(i as int)) + cell_bytes(c));
            }
            i += 1;
        }
        proof {
            assert(self.cells@.take(self.cells@.len() as int) =~= self.cells@);
        }
        out
    }
}

} // verus!
