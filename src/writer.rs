use vstd::prelude::*;
use vstd::math::{max, min};
use crate::bounds::{AABBCC, Point3};
use crate::chunks::{
    ngrp_content, ngrp_tag, nshp_content, nshp_tag, ntrn_content, ntrn_tag, rgba_content,
    rgba_tag, size_content, size_tag, xyzi_content, xyzi_tag, Model, Ngrp, Nshp, Ntrn, Size,
    RGBA, XYZI,
};
use crate::codec::{
    chunk, concat, decimal, get_id_char, get_id_u8, id_of, lemma_concat_take, le32,
    push_decimal, push_i32, push_u32, write_chunk,
};
use crate::dict::DICT;
use crate::partition::{floor_div, floor_half, floor_mod, lemma_div_in_range};
use crate::table::Table;

verus! {

/// The largest cube extent minus one that the format allows on an axis.
pub const MAX_AXIS_LIMIT: i32 = 126;

/// The axis limit that a requested limit gives: clamped to `[0, 126]`, and a
/// degenerate 0 taken as 1, so that every cube is at least one voxel wide.
pub open spec fn axis_limit(l: int) -> int {
    if l >= 126 {
        126
    } else if l <= 1 {
        1
    } else {
        l
    }
}

/// Requested limits above the largest act as the largest, and those at or below
/// zero act as zero, which is taken as 1.
pub proof fn lemma_axis_limit_clamped(l: int)
    ensures
        l >= 126 ==> axis_limit(l) == axis_limit(126),
        l <= 0 ==> axis_limit(l) == axis_limit(0) && axis_limit(0) == 1,
        1 <= axis_limit(l) <= 126,
{
}

/// The most cubes a file can hold: every node id must fit a signed 32-bit field.
pub const MAX_CUBES: usize = 0x3FFF_FFFF;

/// The format version written in the header.
pub const MV_VERSION: i32 = 150;

pub open spec fn vox_tag() -> int {
    id_of('V' as int, 'O' as int, 'X' as int, ' ' as int)
}

pub open spec fn main_tag() -> int {
    id_of('M' as int, 'A' as int, 'I' as int, 'N' as int)
}

/// The attribute key of a transform's translation, `_t`.
pub open spec fn translation_key() -> Seq<u8> {
    seq![95u8, 116u8]
}

/// A translation as text: three decimal integers separated by spaces.
pub open spec fn translation_text(t: (int, int, int)) -> Seq<u8> {
    decimal(t.0) + seq![32u8] + decimal(t.1) + seq![32u8] + decimal(t.2)
}

/// The palette written to a file: entries 0 to 254 copied from `colors` where
/// set, every other entry, 255 included, zero.
pub open spec fn palette(colors: Seq<u32>) -> Seq<u32> {
    Seq::new(256, |i: int| if i < 255 && i < colors.len() { colors[i] } else { 0 })
}

/// What a cube holds, as plain values.
pub struct CubeView {
    /// Position in creation order.
    pub id: int,
    /// The cube coordinates the cube was created for.
    pub anchor: (i32, i32, i32),
    /// The extent written in its size chunk.
    pub extent: (int, int, int),
    /// Quadruples of local x, y, z and color index.
    pub voxels: Seq<u8>,
}

impl CubeView {
    pub open spec fn with_quad(self, quad: Seq<u8>) -> CubeView {
        CubeView { voxels: self.voxels + quad, ..self }
    }

    /// The number of whole quadruples.
    pub open spec fn count(self) -> int {
        self.voxels.len() as int / 4
    }

    /// The local coordinates of quadruple `k`.
    pub open spec fn local(self, k: int) -> (u8, u8, u8) {
        (self.voxels[4 * k], self.voxels[4 * k + 1], self.voxels[4 * k + 2])
    }
}

/// The size chunk then the voxel chunk of a cube.
pub open spec fn cube_payload(c: CubeView) -> Seq<u8> {
    chunk(size_tag(), size_content(c.extent.0, c.extent.1, c.extent.2)) + chunk(
        xyzi_tag(),
        xyzi_content(c.voxels),
    )
}

/// The voxel bytes of all cubes together.
pub open spec fn total_bytes(cubes: Seq<CubeView>) -> int
    decreases cubes.len(),
{
    if cubes.len() == 0 {
        0
    } else {
        total_bytes(cubes.drop_last()) + cubes.last().voxels.len()
    }
}

proof fn lemma_total_bytes_push(cubes: Seq<CubeView>, c: CubeView)
    ensures
        total_bytes(cubes.push(c)) == total_bytes(cubes) + c.voxels.len(),
{
    assert(cubes.push(c).drop_last() =~= cubes);
}

proof fn lemma_total_bytes_update(cubes: Seq<CubeView>, i: int, c: CubeView)
    requires
        0 <= i < cubes.len(),
    ensures
        total_bytes(cubes.update(i, c)) == total_bytes(cubes) - cubes[i].voxels.len()
            + c.voxels.len(),
    decreases cubes.len(),
{
    if i == cubes.len() - 1 {
        assert(cubes.update(i, c).drop_last() =~= cubes.drop_last());
    } else {
        lemma_total_bytes_update(cubes.drop_last(), i, c);
        assert(cubes.update(i, c).drop_last() =~= cubes.drop_last().update(i, c));
    }
}

/// A cube: a bounded volume of voxels written as one model.
pub struct VoxCube {
    pub cube_id: usize,
    pub size: Size,
    /// The cube coordinates the cube was created for.
    pub tx: i32,
    pub ty: i32,
    pub tz: i32,
    pub xyzi: XYZI,
}

impl View for VoxCube {
    type V = CubeView;

    open spec fn view(&self) -> CubeView {
        CubeView {
            id: self.cube_id as int,
            anchor: (self.tx, self.ty, self.tz),
            extent: (self.size.size_x as int, self.size.size_y as int, self.size.size_z as int),
            voxels: self.xyzi.voxels@,
        }
    }
}

impl VoxCube {
    pub fn create_empty() -> (r: Self)
        ensures
            r@ == (CubeView { id: 0, anchor: (0, 0, 0), extent: (0, 0, 0), voxels: seq![] }),
    {
        let r = VoxCube {
            cube_id: 0,
            size: Size::create_empty(),
            tx: 0,
            ty: 0,
            tz: 0,
            xyzi: XYZI::create_empty(),
        };
        assert(r@.voxels =~= seq![]);
        r
    }

    /// Whether this is the cube of id 0.
    pub fn is_empty(&self) -> (r: bool)
        ensures
            r == (self.cube_id == 0),
    {
        self.cube_id == 0
    }

    /// Appends the size chunk and the voxel chunk.
    pub fn write(&self, out: &mut Vec<u8>)
        ensures
            final(out)@ == old(out)@ + cube_payload(self@),
    {
        self.size.write(out);
        self.xyzi.write(out);
        assert(final(out)@ =~= old(out)@ + cube_payload(self@));
    }

    /// Appends one byte to the voxel list.
    pub fn add_coord(&mut self, v: u8)
        ensures
            final(self)@ == (CubeView { voxels: old(self)@.voxels.push(v), ..old(self)@ }),
    {
        self.xyzi.voxels.push(v);
    }
}

/// Accumulates voxels into cubes and colors into a palette.
pub struct VoxWriter {
    max_voxel_per_cube_x: i32,
    max_voxel_per_cube_y: i32,
    max_voxel_per_cube_z: i32,
    max_volume: AABBCC,
    colors: Vec<u32>,
    cubes: Vec<VoxCube>,
    min_cube_x: i32,
    min_cube_y: i32,
    min_cube_z: i32,
    cube_id: Table,
    voxel_id: Table,
}

impl VoxWriter {
    /// The cube width on each axis.
    pub closed spec fn limits(self) -> (int, int, int) {
        (
            self.max_voxel_per_cube_x as int,
            self.max_voxel_per_cube_y as int,
            self.max_voxel_per_cube_z as int,
        )
    }

    /// The cubes in creation order.
    pub closed spec fn cubes(self) -> Seq<CubeView> {
        self.cubes@.map_values(|c: VoxCube| c@)
    }

    /// The palette entries set so far (unset ones below the highest are 0).
    pub closed spec fn colors(self) -> Seq<u32> {
        self.colors@
    }

    /// The index of the cube made for each cube coordinate triple.
    pub closed spec fn cube_ids(self) -> Map<(i32, i32, i32), usize> {
        self.cube_id@
    }

    /// Every global coordinate recorded.
    pub closed spec fn voxels(self) -> Set<(i32, i32, i32)> {
        self.voxel_id@.dom()
    }

    /// Lower corner of the box around every coordinate passed to `add_voxel`.
    pub closed spec fn lower(self) -> (int, int, int) {
        (
            self.max_volume.lower_bound.x as int,
            self.max_volume.lower_bound.y as int,
            self.max_volume.lower_bound.z as int,
        )
    }

    /// Upper corner of the box around every coordinate passed to `add_voxel`.
    pub closed spec fn upper(self) -> (int, int, int) {
        (
            self.max_volume.upper_bound.x as int,
            self.max_volume.upper_bound.y as int,
            self.max_volume.upper_bound.z as int,
        )
    }

    /// The least cube coordinate on each axis over every `add_voxel` call.
    pub closed spec fn min_cube(self) -> (int, int, int) {
        (self.min_cube_x as int, self.min_cube_y as int, self.min_cube_z as int)
    }

    /// The cube coordinates of a global coordinate.
    pub open spec fn cube_of(self, x: i32, y: i32, z: i32) -> (i32, i32, i32) {
        (
            (x as int / self.limits().0) as i32,
            (y as int / self.limits().1) as i32,
            (z as int / self.limits().2) as i32,
        )
    }

    /// The quadruple recorded for a global coordinate and color.
    pub open spec fn quad(self, x: i32, y: i32, z: i32, c: u8) -> Seq<u8> {
        seq![
            (x as int % self.limits().0) as u8,
            (y as int % self.limits().1) as u8,
            (z as int % self.limits().2) as u8,
            c,
        ]
    }

    /// The global coordinate of quadruple `k` of cube `i`.
    pub open spec fn point_of(self, i: int, k: int) -> (i32, i32, i32) {
        let c = self.cubes()[i];
        (
            (c.anchor.0 * self.limits().0 + c.local(k).0) as i32,
            (c.anchor.1 * self.limits().1 + c.local(k).1) as i32,
            (c.anchor.2 * self.limits().2 + c.local(k).2) as i32,
        )
    }

    /// Whether the cube owning `(x, y, z)` holds that coordinate's quadruple with
    /// color `c`.
    pub open spec fn holds_voxel(self, x: i32, y: i32, z: i32, c: u8) -> bool {
        let q = self.cube_of(x, y, z);
        &&& self.cube_ids().contains_key(q)
        &&& exists|k: int|
            0 <= k < self.cubes()[self.cube_ids()[q] as int].count() && #[trigger] self.cubes()[self.cube_ids()[q] as int].voxels.subrange(
                4 * k,
                4 * k + 4,
            ) == self.quad(x, y, z, c)
    }

    /// The cube made for cube coordinates `q` when a voxel lands in none yet.
    pub open spec fn new_cube(self, q: (i32, i32, i32), quad: Seq<u8>) -> CubeView {
        CubeView {
            id: self.cubes().len() as int,
            anchor: q,
            extent: (self.limits().0 + 1, self.limits().1 + 1, self.limits().2 + 1),
            voxels: quad,
        }
    }

    /// How `add_voxel(x, y, z, c)` takes `self` to `next`.
    pub open spec fn voxel_added(self, next: Self, x: i32, y: i32, z: i32, c: u8) -> bool {
        let q = self.cube_of(x, y, z);
        &&& self.voxel_merged(next, x, y, z, c)
        &&& next.min_cube() == (
            min(self.min_cube().0, q.0 as int),
            min(self.min_cube().1, q.1 as int),
            min(self.min_cube().2, q.2 as int),
        )
    }

    /// How recording `(x, y, z)` with color `c` takes `self` to `next`: the box
    /// widens to the coordinate; a coordinate already recorded changes nothing
    /// else; a new one has its quadruple appended to the cube of its cube
    /// coordinates, made at the end of the cube list if there is none yet.
    pub open spec fn voxel_merged(self, next: Self, x: i32, y: i32, z: i32, c: u8) -> bool {
        let q = self.cube_of(x, y, z);
        let quad = self.quad(x, y, z, c);
        &&& next.limits() == self.limits()
        &&& next.colors() == self.colors()
        &&& next.lower() == (
            min(self.lower().0, x as int),
            min(self.lower().1, y as int),
            min(self.lower().2, z as int),
        )
        &&& next.upper() == (
            max(self.upper().0, x as int),
            max(self.upper().1, y as int),
            max(self.upper().2, z as int),
        )
        &&& next.voxels() == self.voxels().insert((x, y, z))
        &&& if self.voxels().contains((x, y, z)) {
            next.cubes() == self.cubes() && next.cube_ids() == self.cube_ids()
        } else if self.cube_ids().contains_key(q) {
            let i = self.cube_ids()[q] as int;
            &&& next.cube_ids() == self.cube_ids()
            &&& next.cubes() == self.cubes().update(i, self.cubes()[i].with_quad(quad))
        } else {
            &&& next.cube_ids() == self.cube_ids().insert(q, self.cubes().len() as usize)
            &&& next.cubes() == self.cubes().push(self.new_cube(q, quad))
        }
    }

    /// The invariant of the writer.
    pub closed spec fn wf(self) -> bool {
        let (lx, ly, lz) = self.limits();
        &&& 1 <= lx <= 126 && 1 <= ly <= 126 && 1 <= lz <= 126
        &&& self.colors@.len() <= 256
        &&& self.cube_id.wf()
        &&& self.voxel_id.wf()
        &&& forall|q: (i32, i32, i32)| #[trigger]
            self.cube_ids().contains_key(q) ==> self.cube_ids()[q] < self.cubes@.len()
                && self.cubes@[self.cube_ids()[q] as int]@.anchor == q
        &&& forall|i: int|
            0 <= i < self.cubes@.len() ==> {
                let c = #[trigger] self.cubes@[i]@;
                &&& self.cube_ids().contains_key(c.anchor)
                &&& self.cube_ids()[c.anchor] == i
                &&& c.id == i
                &&& c.extent == (lx + 1, ly + 1, lz + 1)
                &&& c.voxels.len() % 4 == 0
            }
        &&& forall|i: int, k: int|
            0 <= i < self.cubes@.len() && 0 <= k < self.cubes@[i]@.count() ==> {
                let l = #[trigger] self.cubes@[i]@.local(k);
                &&& l.0 < lx && l.1 < ly && l.2 < lz
                &&& self.voxels().contains(self.point_of(i, k))
            }
        &&& forall|i: int, k1: int, k2: int|
            0 <= i < self.cubes@.len() && 0 <= k1 < k2 < self.cubes@[i]@.count() ==> #[trigger] self.cubes@[i]@.local(k1)
                != #[trigger] self.cubes@[i]@.local(k2)
        &&& self.voxels().len() * 4 == total_bytes(self.cubes())
    }
}

impl VoxWriter {
    /// A writer whose cubes are `axis_limit` of the given limits wide.
    pub fn create(limitx: i32, limity: i32, limitz: i32) -> (r: Self)
        ensures
            r.wf(),
            r.limits() == (axis_limit(limitx as int), axis_limit(limity as int), axis_limit(
                limitz as int,
            )),
            r.cubes() == Seq::<CubeView>::empty(),
            r.colors() == Seq::<u32>::empty(),
            r.cube_ids() == Map::<(i32, i32, i32), usize>::empty(),
            r.voxels() == Set::<(i32, i32, i32)>::empty(),
            r.lower() == (i32::MAX as int, i32::MAX as int, i32::MAX as int),
            r.upper() == (i32::MIN as int, i32::MIN as int, i32::MIN as int),
            r.min_cube() == (i32::MAX as int, i32::MAX as int, i32::MAX as int),
    {
        let r = VoxWriter {
            max_voxel_per_cube_x: clamp_limit(limitx),
            max_voxel_per_cube_y: clamp_limit(limity),
            max_voxel_per_cube_z: clamp_limit(limitz),
            max_volume: AABBCC::create_empty(),
            colors: Vec::new(),
            cubes: Vec::new(),
            min_cube_x: i32::MAX,
            min_cube_y: i32::MAX,
            min_cube_z: i32::MAX,
            cube_id: Table::new(),
            voxel_id: Table::new(),
        };
        assert(r.cubes() =~= Seq::<CubeView>::empty());
        assert(r.voxels() =~= Set::<(i32, i32, i32)>::empty());
        r
    }

    /// A writer with the largest cubes the format allows.
    pub fn create_empty() -> (r: Self)
        ensures
            r.wf(),
            r.limits() == (126int, 126int, 126int),
            r.cubes() == Seq::<CubeView>::empty(),
            r.colors() == Seq::<u32>::empty(),
            r.cube_ids() == Map::<(i32, i32, i32), usize>::empty(),
            r.voxels() == Set::<(i32, i32, i32)>::empty(),
            r.lower() == (i32::MAX as int, i32::MAX as int, i32::MAX as int),
            r.upper() == (i32::MIN as int, i32::MIN as int, i32::MIN as int),
            r.min_cube() == (i32::MAX as int, i32::MAX as int, i32::MAX as int),
    {
        Self::create(MAX_AXIS_LIMIT, MAX_AXIS_LIMIT, MAX_AXIS_LIMIT)
    }

    /// Forgets every voxel: cubes, both tables, the box and the least cube
    /// coordinates start over; the limits and the palette stay.
    pub fn clear_voxels(&mut self)
        requires
            old(self).wf(),
        ensures
            final(self).wf(),
            final(self).limits() == old(self).limits(),
            final(self).colors() == old(self).colors(),
            final(self).cubes() == Seq::<CubeView>::empty(),
            final(self).cube_ids() == Map::<(i32, i32, i32), usize>::empty(),
            final(self).voxels() == Set::<(i32, i32, i32)>::empty(),
            final(self).lower() == (i32::MAX as int, i32::MAX as int, i32::MAX as int),
            final(self).upper() == (i32::MIN as int, i32::MIN as int, i32::MIN as int),
            final(self).min_cube() == (i32::MAX as int, i32::MAX as int, i32::MAX as int),
    {
        self.cubes.clear();
        self.cube_id = Table::new();
        self.voxel_id = Table::new();
        self.max_volume = AABBCC::create_empty();
        self.min_cube_x = i32::MAX;
        self.min_cube_y = i32::MAX;
        self.min_cube_z = i32::MAX;
        assert(self.cubes() =~= Seq::<CubeView>::empty());
        assert(self.voxels() =~= Set::<(i32, i32, i32)>::empty());
    }

    /// Empties the palette.
    pub fn clear_colors(&mut self)
        requires
            old(self).wf(),
        ensures
            final(self).wf(),
            final(self).colors() == Seq::<u32>::empty(),
            final(self).limits() == old(self).limits(),
            final(self).cubes() == old(self).cubes(),
            final(self).cube_ids() == old(self).cube_ids(),
            final(self).voxels() == old(self).voxels(),
            final(self).lower() == old(self).lower(),
            final(self).upper() == old(self).upper(),
            final(self).min_cube() == old(self).min_cube(),
    {
        self.colors.clear();
    }

    /// Sets palette entry `index` to the color packed from `v_r`, `v_g`, `v_b`,
    /// `v_a` (red in the lowest byte), growing the palette with zeros up to it.
    pub fn add_color(&mut self, v_r: u8, v_g: u8, v_b: u8, v_a: u8, index: u8)
        requires
            old(self).wf(),
        ensures
            final(self).wf(),
            final(self).colors().len() == max(old(self).colors().len() as int, index + 1),
            final(self).colors()[index as int] == id_of(
                v_r as int,
                v_g as int,
                v_b as int,
                v_a as int,
            ),
            forall|j: int|
                0 <= j < final(self).colors().len() && j != index
                    ==> #[trigger] final(self).colors()[j] == if j < old(self).colors().len() {
                    old(self).colors()[j]
                } else {
                    0
                },
            final(self).limits() == old(self).limits(),
            final(self).cubes() == old(self).cubes(),
            final(self).cube_ids() == old(self).cube_ids(),
            final(self).voxels() == old(self).voxels(),
            final(self).lower() == old(self).lower(),
            final(self).upper() == old(self).upper(),
            final(self).min_cube() == old(self).min_cube(),
    {
        while self.colors.len() <= index as usize
            invariant
                old(self).colors@.len() <= self.colors@.len() <= max(
                    old(self).colors@.len() as int,
                    index + 1,
                ),
                forall|j: int|
                    0 <= j < self.colors@.len() ==> #[trigger] self.colors@[j]
                        == if j < old(self).colors@.len() {
                        old(self).colors@[j]
                    } else {
                        0
                    },
                self.max_voxel_per_cube_x == old(self).max_voxel_per_cube_x,
                self.max_voxel_per_cube_y == old(self).max_voxel_per_cube_y,
                self.max_voxel_per_cube_z == old(self).max_voxel_per_cube_z,
                self.max_volume == old(self).max_volume,
                self.cubes == old(self).cubes,
                self.min_cube_x == old(self).min_cube_x,
                self.min_cube_y == old(self).min_cube_y,
                self.min_cube_z == old(self).min_cube_z,
                self.cube_id == old(self).cube_id,
                self.voxel_id == old(self).voxel_id,
            decreases index + 1 - self.colors@.len(),
        {
            self.colors.push(0);
        }
        self.colors.set(index as usize, get_id_u8(v_r, v_g, v_b, v_a));
    }
}

impl VoxWriter {
    /// Records voxel `(v_x, v_y, v_z)` with the low byte of `v_color_index` as its
    /// color, in the cube of its cube coordinates. The first color given to a
    /// coordinate stays.
    pub fn add_voxel(&mut self, v_x: i32, v_y: i32, v_z: i32, v_color_index: i32)
        requires
            old(self).wf(),
        ensures
            final(self).wf(),
            old(self).voxel_added(*final(self), v_x, v_y, v_z, v_color_index as u8),
    {
        let ox = floor_div(v_x, self.max_voxel_per_cube_x);
        let oy = floor_div(v_y, self.max_voxel_per_cube_y);
        let oz = floor_div(v_z, self.max_voxel_per_cube_z);
        #[verifier::truncate]
        let color = v_color_index as u8;
        self.merge_voxel_in_cube(v_x, v_y, v_z, color, ox, oy, oz);
        if ox < self.min_cube_x {
            self.min_cube_x = ox;
        }
        if oy < self.min_cube_y {
            self.min_cube_y = oy;
        }
        if oz < self.min_cube_z {
            self.min_cube_z = oz;
        }
    }

    /// The index in the cube table of cube coordinates `(v_x, v_y, v_z)`; a new
    /// triple gets the index the next cube will have.
    fn get_cube_id(&mut self, v_x: i32, v_y: i32, v_z: i32) -> (r: usize)
        requires
            old(self).cube_id.wf(),
        ensures
            final(self).cube_id.wf(),
            old(self).cube_ids().contains_key((v_x, v_y, v_z)) ==> r == old(self).cube_ids()[(
                v_x,
                v_y,
                v_z,
            )] && final(self).cube_ids() == old(self).cube_ids(),
            !old(self).cube_ids().contains_key((v_x, v_y, v_z)) ==> r == old(self).cubes@.len()
                && final(self).cube_ids() == old(self).cube_ids().insert((v_x, v_y, v_z), r),
            final(self).cubes == old(self).cubes,
            final(self).voxel_id == old(self).voxel_id,
            final(self).colors == old(self).colors,
            final(self).max_volume == old(self).max_volume,
            final(self).limits() == old(self).limits(),
            final(self).min_cube() == old(self).min_cube(),
    {
        match self.cube_id.get(v_x, v_y, v_z) {
            Some(id) => id,
            None => {
                let id = self.cubes.len();
                self.cube_id.set(v_x, v_y, v_z, id);
                id
            },
        }
    }

    /// The index of the cube for cube coordinates `(v_x, v_y, v_z)`, made at the
    /// end of the cube list, empty, if there is none yet.
    fn get_cube(&mut self, v_x: i32, v_y: i32, v_z: i32) -> (r: usize)
        requires
            old(self).wf(),
        ensures
            final(self).wf(),
            r < final(self).cubes@.len(),
            final(self).cube_ids().contains_key((v_x, v_y, v_z)),
            final(self).cube_ids()[(v_x, v_y, v_z)] == r,
            old(self).cube_ids().contains_key((v_x, v_y, v_z)) ==> final(self).cubes()
                == old(self).cubes() && final(self).cube_ids() == old(self).cube_ids(),
            !old(self).cube_ids().contains_key((v_x, v_y, v_z)) ==> r == old(self).cubes().len()
                && final(self).cubes() == old(self).cubes().push(
                old(self).new_cube((v_x, v_y, v_z), seq![]),
            ) && final(self).cube_ids() == old(self).cube_ids().insert((v_x, v_y, v_z), r),
            final(self).voxel_id == old(self).voxel_id,
            final(self).colors == old(self).colors,
            final(self).max_volume == old(self).max_volume,
            final(self).limits() == old(self).limits(),
            final(self).min_cube() == old(self).min_cube(),
    {
        let cube_id = self.get_cube_id(v_x, v_y, v_z);
        if cube_id == self.cubes.len() {
            let mut cube = VoxCube::create_empty();
            cube.cube_id = cube_id;
            cube.tx = v_x;
            cube.ty = v_y;
            cube.tz = v_z;
            cube.size.size_x = self.max_voxel_per_cube_x + 1;
            cube.size.size_y = self.max_voxel_per_cube_y + 1;
            cube.size.size_z = self.max_voxel_per_cube_z + 1;
            let ghost before = self.cubes@;
            self.cubes.push(cube);
            proof {
                assert(self.cubes() =~= old(self).cubes().push(
                    old(self).new_cube((v_x, v_y, v_z), seq![]),
                ));
                lemma_total_bytes_push(old(self).cubes(), cube@);
                assert forall|i: int, k: int|
                    0 <= i < self.cubes@.len() && 0 <= k < self.cubes@[i]@.count() implies {
                    let l = #[trigger] self.cubes@[i]@.local(k);
                    &&& l.0 < self.limits().0 && l.1 < self.limits().1 && l.2 < self.limits().2
                    &&& self.voxels().contains(self.point_of(i, k))
                } by {
                    assert(i < before.len());
                    assert(self.cubes@[i] == before[i]);
                    assert(self.point_of(i, k) == old(self).point_of(i, k));
                }
            }
        }
        cube_id
    }

    /// Widens the box to `(v_x, v_y, v_z)` and, when the coordinate is new,
    /// appends its quadruple to the cube at cube coordinates `(c_x, c_y, c_z)`.
    fn merge_voxel_in_cube(
        &mut self,
        v_x: i32,
        v_y: i32,
        v_z: i32,
        v_color_index: u8,
        c_x: i32,
        c_y: i32,
        c_z: i32,
    )
        requires
            old(self).wf(),
            (c_x, c_y, c_z) == old(self).cube_of(v_x, v_y, v_z),
        ensures
            final(self).wf(),
            old(self).voxel_merged(*final(self), v_x, v_y, v_z, v_color_index),
            final(self).min_cube() == old(self).min_cube(),
    {
        self.max_volume.combine(Point3::create3(v_x, v_y, v_z));
        let id = self.voxel_id.get(v_x, v_y, v_z);
        if id.is_none() {
            let p = self.mod_value(v_x, v_y, v_z);
            let ci = self.get_cube(c_x, c_y, c_z);
            let ghost made = *self;
            let ghost quad = old(self).quad(v_x, v_y, v_z, v_color_index);
            assert(quad == seq![p.x, p.y, p.z, v_color_index]);
            self.cubes[ci].add_coord(p.x);
            self.cubes[ci].add_coord(p.y);
            self.cubes[ci].add_coord(p.z);
            self.cubes[ci].add_coord(v_color_index);
            let cid = self.cubes[ci].xyzi.voxels.len();
            self.voxel_id.set(v_x, v_y, v_z, cid);
            proof {
                assert(self.cubes@[ci as int]@.voxels =~= made.cubes@[ci as int]@.voxels + quad);
                self.lemma_merged_new(made, ci as int, v_x, v_y, v_z, v_color_index, cid);
                let q = old(self).cube_of(v_x, v_y, v_z);
                if !old(self).cube_ids().contains_key(q) {
                    let nc = old(self).new_cube(q, seq![]);
                    assert(nc.with_quad(quad).voxels =~= quad);
                    assert(self.cubes() =~= old(self).cubes().push(old(self).new_cube(q, quad)));
                }
            }
        } else {
            assert(self.voxels() =~= old(self).voxels().insert((v_x, v_y, v_z)));
        }
    }

    /// The step that appends a new coordinate's quadruple to cube `ci` keeps the
    /// invariant.
    proof fn lemma_merged_new(
        self,
        made: Self,
        ci: int,
        x: i32,
        y: i32,
        z: i32,
        c: u8,
        cid: usize,
    )
        requires
            made.wf(),
            0 <= ci < made.cubes@.len(),
            made.cubes@[ci]@.anchor == made.cube_of(x, y, z),
            !made.voxels().contains((x, y, z)),
            self.limits() == made.limits(),
            self.cube_id == made.cube_id,
            self.colors == made.colors,
            self.voxel_id.wf(),
            self.voxel_id@ == made.voxel_id@.insert((x, y, z), cid),
            self.cubes@.len() == made.cubes@.len(),
            forall|i: int| 0 <= i < self.cubes@.len() && i != ci ==> self.cubes@[i] == made.cubes@[i],
            self.cubes@[ci]@ == made.cubes@[ci]@.with_quad(made.quad(x, y, z, c)),
        ensures
            self.wf(),
            self.cubes() == made.cubes().update(ci, made.cubes()[ci].with_quad(made.quad(x, y, z, c))),
            self.voxels() == made.voxels().insert((x, y, z)),
    {
        let (lx, ly, lz) = self.limits();
        let quad = made.quad(x, y, z, c);
        let old_c = made.cubes@[ci]@;
        let n = old_c.count();
        assert(self.voxels() =~= made.voxels().insert((x, y, z)));
        assert(self.cubes() =~= made.cubes().update(ci, old_c.with_quad(quad)));
        lemma_total_bytes_update(made.cubes(), ci, old_c.with_quad(quad));
        lemma_div_in_range(x as int, lx);
        lemma_div_in_range(y as int, ly);
        lemma_div_in_range(z as int, lz);
        assert(old_c.voxels.len() == 4 * n);
        assert(self.cubes@[ci]@.voxels == old_c.voxels + quad);
        assert(self.cubes@[ci]@.voxels[4 * n] == quad[0]);
        assert(self.cubes@[ci]@.local(n) == ((x as int % lx) as u8, (y as int % ly) as u8, (
        z as int % lz) as u8));
        assert(self.cubes()[ci].anchor.0 == x as int / lx);
        assert(self.cubes()[ci].local(n).0 == x as int % lx);
        assert((x as int / lx) * lx == lx * (x as int / lx)) by (nonlinear_arith);
        assert((y as int / ly) * ly == ly * (y as int / ly)) by (nonlinear_arith);
        assert((z as int / lz) * lz == lz * (z as int / lz)) by (nonlinear_arith);
        assert(self.cubes()[ci].anchor.0 * lx + self.cubes()[ci].local(n).0 == x);
        assert(self.point_of(ci, n) == (x, y, z));
        assert forall|i: int, k: int|
            0 <= i < self.cubes@.len() && 0 <= k < self.cubes@[i]@.count() implies {
            let l = #[trigger] self.cubes@[i]@.local(k);
            &&& l.0 < lx && l.1 < ly && l.2 < lz
            &&& self.voxels().contains(self.point_of(i, k))
        } by {
            if i != ci || k < n {
                assert(self.cubes@[i]@.local(k) == made.cubes@[i]@.local(k));
                assert(self.point_of(i, k) == made.point_of(i, k));
            }
        }
        assert forall|i: int, k1: int, k2: int|
            0 <= i < self.cubes@.len() && 0 <= k1 < k2 < self.cubes@[i]@.count() implies #[trigger] self.cubes@[i]@.local(k1)
                != #[trigger] self.cubes@[i]@.local(k2) by {
            if i == ci {
                assert(self.cubes@[i]@.local(k1) == made.cubes@[i]@.local(k1));
                if k2 == n {
                    if self.cubes@[i]@.local(k1) == self.cubes@[i]@.local(k2) {
                        assert(made.point_of(i, k1) == self.point_of(i, k2));
                        assert(false);
                    }
                } else {
                    assert(self.cubes@[i]@.local(k2) == made.cubes@[i]@.local(k2));
                }
            } else {
                assert(self.cubes@[i] == made.cubes@[i]);
            }
        }
            made.voxel_id.lemma_finite();
        assert(self.voxels().len() == made.voxels().len() + 1);
        assert forall|q: (i32, i32, i32)| #[trigger]
            self.cube_ids().contains_key(q) implies self.cube_ids()[q] < self.cubes@.len()
                && self.cubes@[self.cube_ids()[q] as int]@.anchor == q by {
            assert(made.cube_ids().contains_key(q));
        }
        assert forall|i: int|
            0 <= i < self.cubes@.len() implies {
                let c = #[trigger] self.cubes@[i]@;
                &&& self.cube_ids().contains_key(c.anchor)
                &&& self.cube_ids()[c.anchor] == i
                &&& c.id == i
                &&& c.extent == (lx + 1, ly + 1, lz + 1)
                &&& c.voxels.len() % 4 == 0
            } by {
            let c0 = made.cubes@[i]@;
            assert(made.cube_ids().contains_key(c0.anchor));
        }
    }

    /// The position of `(vx, vy, vz)` inside its cube.
    fn mod_value(&self, vx: i32, vy: i32, vz: i32) -> (r: Point3<u8>)
        requires
            self.wf(),
        ensures
            r.x == vx as int % self.limits().0,
            r.y == vy as int % self.limits().1,
            r.z == vz as int % self.limits().2,
    {
        Point3::create3(
            floor_mod(vx, self.max_voxel_per_cube_x),
            floor_mod(vy, self.max_voxel_per_cube_y),
            floor_mod(vz, self.max_voxel_per_cube_z),
        )
    }
}

impl VoxWriter {
    /// The translation of a cube in the scene: its cube coordinates counted
    /// from the least ones, at the cube's middle, in voxels; on x and y also
    /// moved back by the middle of the box around every coordinate.
    pub open spec fn translation(self, c: CubeView) -> (int, int, int) {
        let (lx, ly, lz) = self.limits();
        let m = self.min_cube();
        let lo = self.lower();
        let up = self.upper();
        (
            ((2 * (c.anchor.0 - m.0) + 1) * lx - lo.0 - up.0) / 2,
            ((2 * (c.anchor.1 - m.1) + 1) * ly - lo.1 - up.1) / 2,
            ((2 * (c.anchor.2 - m.2) + 1) * lz) / 2,
        )
    }

    /// The transform node (id `2 + 2i`) and shape node (id `3 + 2i`) of cube `i`.
    pub open spec fn cube_nodes(self, i: int) -> Seq<u8> {
        chunk(
            ntrn_tag(),
            ntrn_content(
                2 + 2 * i,
                seq![],
                3 + 2 * i,
                -1,
                0,
                seq![seq![(translation_key(), translation_text(self.translation(self.cubes()[i])))]],
            ),
        ) + chunk(nshp_tag(), nshp_content(3 + 2 * i, seq![], seq![(i, seq![])]))
    }

    /// Everything inside the main chunk: each cube's size and voxel chunks; the
    /// root transform (id 0) and the root group (id 1) over every cube's
    /// transform; each cube's transform and shape; the palette if any color was
    /// set.
    pub open spec fn body(self) -> Seq<u8> {
        let n = self.cubes().len();
        concat(self.cubes().map_values(|c: CubeView| cube_payload(c))) + chunk(
            ntrn_tag(),
            ntrn_content(0, seq![], 1, -1, -1, seq![seq![]]),
        ) + chunk(ngrp_tag(), ngrp_content(1, seq![], Seq::new(n, |i: int| 2 + 2 * i))) + concat(
            Seq::new(n, |i: int| self.cube_nodes(i)),
        ) + if self.colors().len() > 0 {
            chunk(rgba_tag(), rgba_content(palette(self.colors())))
        } else {
            seq![]
        }
    }

    /// The whole file: tag, version, then the main chunk framing the body.
    pub open spec fn file_bytes(self) -> Seq<u8> {
        le32(vox_tag()) + le32(MV_VERSION as int) + chunk(main_tag(), self.body())
    }

    /// The translation of `cube`.
    fn translation_of(&self, cube: &VoxCube) -> (r: (i64, i64, i64))
        requires
            self.wf(),
        ensures
            (r.0 as int, r.1 as int, r.2 as int) == self.translation(cube@),
    {
        let lx = self.max_voxel_per_cube_x as i64;
        let ly = self.max_voxel_per_cube_y as i64;
        let lz = self.max_voxel_per_cube_z as i64;
        let dx: i64 = 2 * (cube.tx as i64 - self.min_cube_x as i64) + 1;
        let dy: i64 = 2 * (cube.ty as i64 - self.min_cube_y as i64) + 1;
        let dz: i64 = 2 * (cube.tz as i64 - self.min_cube_z as i64) + 1;
        assert(-0x1_0000_0000_0000 < dx * lx < 0x1_0000_0000_0000) by (nonlinear_arith)
            requires
                -0x2_0000_0001 <= dx <= 0x2_0000_0001,
                1 <= lx <= 126,
        ;
        assert(-0x1_0000_0000_0000 < dy * ly < 0x1_0000_0000_0000) by (nonlinear_arith)
            requires
                -0x2_0000_0001 <= dy <= 0x2_0000_0001,
                1 <= ly <= 126,
        ;
        assert(-0x1_0000_0000_0000 < dz * lz < 0x1_0000_0000_0000) by (nonlinear_arith)
            requires
                -0x2_0000_0001 <= dz <= 0x2_0000_0001,
                1 <= lz <= 126,
        ;
        let tx = floor_half(
            dx * lx - self.max_volume.lower_bound.x as i64 - self.max_volume.upper_bound.x as i64,
        );
        let ty = floor_half(
            dy * ly - self.max_volume.lower_bound.y as i64 - self.max_volume.upper_bound.y as i64,
        );
        let tz = floor_half(dz * lz);
        (tx, ty, tz)
    }

    /// Appends the transform and shape nodes of cube `i`.
    fn write_cube_nodes(&self, i: usize, out: &mut Vec<u8>)
        requires
            self.wf(),
            i < self.cubes().len(),
            self.cubes().len() <= MAX_CUBES,
        ensures
            final(out)@ == old(out)@ + self.cube_nodes(i as int),
    {
        let cube = &self.cubes[i];
        let t = self.translation_of(cube);
        let mut text: Vec<u8> = Vec::new();
        push_decimal(&mut text, t.0);
        text.push(32u8);
        push_decimal(&mut text, t.1);
        text.push(32u8);
        push_decimal(&mut text, t.2);
        let ghost tt = translation_text(self.translation(self.cubes()[i as int]));
        assert(text@ =~= tt);
        let mut key: Vec<u8> = Vec::new();
        key.push(95u8);
        key.push(116u8);
        assert(key@ =~= translation_key());
        let mut frame = DICT::create_empty();
        frame.add(key, text);
        let mut frames: Vec<DICT> = Vec::new();
        frames.push(frame);
        let trans = Ntrn {
            node_id: (2 + 2 * i) as i32,
            node_attribs: DICT::create_empty(),
            child_node_id: (3 + 2 * i) as i32,
            reserved_id: -1,
            layer_id: 0,
            frames,
        };
        assert(trans.frames_view() =~= seq![seq![(translation_key(), tt)]]);
        trans.write(out);
        let mut models: Vec<Model> = Vec::new();
        models.push(Model { model_id: i as i32, model_attribs: DICT::create_empty() });
        let shape = Nshp { node_id: (3 + 2 * i) as i32, node_attribs: DICT::create_empty(), models };
        assert(shape.models_view() =~= seq![(i as int, Seq::<(Seq<u8>, Seq<u8>)>::empty())]);
        shape.write(out);
        assert(final(out)@ =~= old(out)@ + self.cube_nodes(i as int));
    }

    /// The palette chunk written to a file.
    fn palette_chunk(&self) -> (r: RGBA)
        requires
            self.wf(),
        ensures
            r.colors() == palette(self.colors()),
    {
        let mut pal = RGBA::create_empty();
        let mut i: usize = 0;
        while i < 255
            invariant
                i <= 255,
                pal.colors() == Seq::new(
                    256,
                    |j: int| if j < i && j < self.colors().len() { self.colors()[j] } else { 0 },
                ),
            decreases 255 - i,
        {
            if i < self.colors.len() {
                pal.set(i, self.colors[i]);
            }
            i = i + 1;
            assert(pal.colors() =~= Seq::new(
                256,
                |j: int| if j < i && j < self.colors().len() { self.colors()[j] } else { 0 },
            ));
        }
        assert(pal.colors() =~= palette(self.colors()));
        pal
    }

    /// The bytes of the model file: header, main chunk with every cube, the scene
    /// graph and the palette. Translations are computed for the output only; the
    /// writer is left as it was, so encoding twice gives the same bytes.
    pub fn encode(&self) -> (r: Vec<u8>)
        requires
            self.wf(),
            self.cubes().len() <= MAX_CUBES,
        ensures
            r@ == self.file_bytes(),
    {
        let n = self.cubes.len();
        let ghost payloads = self.cubes().map_values(|c: CubeView| cube_payload(c));
        let mut body: Vec<u8> = Vec::new();
        let mut i: usize = 0;
        while i < n
            invariant
                n == self.cubes@.len(),
                payloads == self.cubes().map_values(|c: CubeView| cube_payload(c)),
                i <= n,
                body@ == concat(payloads.take(i as int)),
            decreases n - i,
        {
            self.cubes[i].write(&mut body);
            proof {
                lemma_concat_take(payloads, i as int);
            }
            i = i + 1;
        }
        assert(payloads.take(n as int) =~= payloads);
        let mut root_transform = Ntrn::create(1);
        root_transform.child_node_id = 1;
        assert(root_transform.frames_view() =~= seq![Seq::<(Seq<u8>, Seq<u8>)>::empty()]);
        root_transform.write(&mut body);
        let mut children: Vec<i32> = Vec::new();
        let mut j: usize = 0;
        while j < n
            invariant
                n == self.cubes@.len(),
                n <= MAX_CUBES,
                j <= n,
                children@.len() == j,
                forall|k: int| 0 <= k < j ==> #[trigger] children@[k] == 2 + 2 * k,
            decreases n - j,
        {
            children.push((2 + 2 * j) as i32);
            j = j + 1;
        }
        assert(children@.map_values(|c: i32| c as int) =~= Seq::new(n as nat, |k: int| 2 + 2 * k));
        let root_group = Ngrp { node_id: 1, node_attribs: DICT::create_empty(), child_nodes: children };
        root_group.write(&mut body);
        let ghost head = body@;
        let ghost nodes = Seq::new(n as nat, |k: int| self.cube_nodes(k));
        let mut k: usize = 0;
        while k < n
            invariant
                n == self.cubes@.len(),
                n <= MAX_CUBES,
                self.wf(),
                nodes == Seq::new(n as nat, |k: int| self.cube_nodes(k)),
                k <= n,
                body@ == head + concat(nodes.take(k as int)),
            decreases n - k,
        {
            self.write_cube_nodes(k, &mut body);
            proof {
                lemma_concat_take(nodes, k as int);
            }
            k = k + 1;
        }
        assert(nodes.take(n as int) =~= nodes);
        if self.colors.len() > 0 {
            let pal = self.palette_chunk();
            pal.write(&mut body);
        }
        assert(body@ =~= self.body());
        let mut out: Vec<u8> = Vec::new();
        push_u32(&mut out, get_id_char('V', 'O', 'X', ' '));
        push_i32(&mut out, MV_VERSION);
        write_chunk(&mut out, get_id_char('M', 'A', 'I', 'N'), &body);
        assert(out@ =~= self.file_bytes());
        out
    }
}

impl VoxWriter {
    /// The number of cubes.
    pub fn count_cubes(&self) -> (r: usize)
        ensures
            r == self.cubes().len(),
    {
        self.cubes.len()
    }

    /// The number of distinct coordinates recorded, which is the number of
    /// quadruples held by all cubes.
    pub fn count_voxels(&self) -> (r: usize)
        requires
            self.wf(),
        ensures
            r == self.voxels().len(),
            4 * r == total_bytes(self.cubes()),
    {
        self.voxel_id.len()
    }

    /// The extent of the box around every coordinate passed to `add_voxel`.
    pub fn volume_size(&self) -> (r: Point3<i64>)
        ensures
            r.x == self.upper().0 - self.lower().0,
            r.y == self.upper().1 - self.lower().1,
            r.z == self.upper().2 - self.lower().2,
    {
        self.max_volume.size()
    }
}

/// The header's main chunk length: the file is the 8-byte tag and version, then
/// the main chunk's tag, its content length, which is the number of every byte
/// after the 20-byte header, and a zero children length.
pub proof fn lemma_main_length(w: VoxWriter)
    ensures
        w.file_bytes().len() == 20 + w.body().len(),
        w.file_bytes().subrange(0, 4) == le32(vox_tag()),
        w.file_bytes().subrange(4, 8) == le32(MV_VERSION as int),
        w.file_bytes().subrange(8, 12) == le32(main_tag()),
        w.file_bytes().subrange(12, 16) == le32(w.file_bytes().len() - 20),
        w.file_bytes().subrange(16, 20) == le32(0),
        w.file_bytes().subrange(20, w.file_bytes().len() as int) == w.body(),
{
    lemma_file_layout(w.body());
}

proof fn lemma_file_layout(body: Seq<u8>)
    ensures
        ({
            let f = le32(vox_tag()) + le32(MV_VERSION as int) + chunk(main_tag(), body);
            &&& f.len() == 20 + body.len()
            &&& f.subrange(0, 4) == le32(vox_tag())
            &&& f.subrange(4, 8) == le32(MV_VERSION as int)
            &&& f.subrange(8, 12) == le32(main_tag())
            &&& f.subrange(12, 16) == le32(f.len() - 20)
            &&& f.subrange(16, 20) == le32(0)
            &&& f.subrange(20, f.len() as int) == body
        }),
{
    let f = le32(vox_tag()) + le32(MV_VERSION as int) + chunk(main_tag(), body);
    assert(f.subrange(0, 4) =~= le32(vox_tag()));
    assert(f.subrange(4, 8) =~= le32(MV_VERSION as int));
    assert(f.subrange(8, 12) =~= le32(main_tag()));
    assert(f.subrange(12, 16) =~= le32(body.len() as int));
    assert(f.subrange(16, 20) =~= le32(0));
    assert(f.subrange(20, f.len() as int) =~= body);
}

/// Deduplication: every coordinate recorded stands for exactly one quadruple,
/// so the number of distinct coordinates passed to `add_voxel` equals the
/// number of bytes of all cube voxel lists divided by 4.
pub proof fn lemma_distinct_voxel_count(w: VoxWriter)
    requires
        w.wf(),
    ensures
        w.voxels().finite(),
        total_bytes(w.cubes()) % 4 == 0,
        w.voxels().len() == total_bytes(w.cubes()) / 4,
{
    w.voxel_id.lemma_finite();
}

/// First write wins: after a new coordinate is added with color `c1` and then
/// again with color `c2`, the second call changes no cube, and the cube owning
/// the coordinate holds it with color `c1` and no other.
pub proof fn lemma_first_write_wins(
    w0: VoxWriter,
    w1: VoxWriter,
    w2: VoxWriter,
    x: i32,
    y: i32,
    z: i32,
    c1: u8,
    c2: u8,
)
    requires
        w0.wf(),
        w1.wf(),
        w2.wf(),
        !w0.voxels().contains((x, y, z)),
        w0.voxel_added(w1, x, y, z, c1),
        w1.voxel_added(w2, x, y, z, c2),
    ensures
        w2.cubes() == w1.cubes(),
        w2.holds_voxel(x, y, z, c1),
        forall|c: u8| #[trigger] w2.holds_voxel(x, y, z, c) ==> c == c1,
{
    let q = w0.cube_of(x, y, z);
    let quad = w0.quad(x, y, z, c1);
    assert(w1.voxels().contains((x, y, z)));
    assert(w2.cube_of(x, y, z) == q);
    assert(w2.quad(x, y, z, c1) == quad);
    let i = w2.cube_ids()[q] as int;
    let cube = w2.cubes()[i];
    let n = if w0.cube_ids().contains_key(q) {
        w0.cubes()[i].count()
    } else {
        0
    };
    if w0.cube_ids().contains_key(q) {
        assert(w0.cubes@[i]@.voxels.len() % 4 == 0);
    }
    assert(cube.voxels.subrange(4 * n, 4 * n + 4) =~= quad);
    assert(w2.cubes@[i]@.voxels.len() % 4 == 0);
    assert(0 <= n < cube.count());
    assert(w2.holds_voxel(x, y, z, c1));
    w2.lemma_holds_unique(x, y, z, n, c1);
}

impl VoxWriter {
    /// A cube holds at most one quadruple for a coordinate.
    proof fn lemma_holds_unique(self, x: i32, y: i32, z: i32, n: int, c1: u8)
        requires
            self.wf(),
            self.cube_ids().contains_key(self.cube_of(x, y, z)),
            0 <= n < self.cubes()[self.cube_ids()[self.cube_of(x, y, z)] as int].count(),
            self.cubes()[self.cube_ids()[self.cube_of(x, y, z)] as int].voxels.subrange(
                4 * n,
                4 * n + 4,
            ) == self.quad(x, y, z, c1),
        ensures
            forall|c: u8| #[trigger] self.holds_voxel(x, y, z, c) ==> c == c1,
    {
        let i = self.cube_ids()[self.cube_of(x, y, z)] as int;
        let cube = self.cubes()[i];
        assert forall|c: u8| #[trigger] self.holds_voxel(x, y, z, c) implies c == c1 by {
            let k = choose|k: int|
                0 <= k < cube.count() && #[trigger] cube.voxels.subrange(4 * k, 4 * k + 4)
                    == self.quad(x, y, z, c);
            let sk = cube.voxels.subrange(4 * k, 4 * k + 4);
            let sn = cube.voxels.subrange(4 * n, 4 * n + 4);
            assert(sk[0] == cube.voxels[4 * k] && sk[1] == cube.voxels[4 * k + 1] && sk[2]
                == cube.voxels[4 * k + 2]);
            assert(sn[0] == cube.voxels[4 * n] && sn[1] == cube.voxels[4 * n + 1] && sn[2]
                == cube.voxels[4 * n + 2]);
            assert(cube.local(k) == cube.local(n));
            if k < n {
                assert(self.cubes@[i]@.local(k) != self.cubes@[i]@.local(n));
            } else if k > n {
                assert(self.cubes@[i]@.local(n) != self.cubes@[i]@.local(k));
            }
            assert(sk[3] == c && sn[3] == c1);
        }
    }
}

fn clamp_limit(l: i32) -> (r: i32)
    ensures
        r == axis_limit(l as int),
{
    let c = if l > MAX_AXIS_LIMIT {
        MAX_AXIS_LIMIT
    } else if l < 0 {
        0
    } else {
        l
    };
    if c == 0 {
        1
    } else {
        c
    }
}

} // verus!
