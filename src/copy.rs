//! Splitting of buffer <-> image copy regions into native placed-footprint
//! copies that meet the native placement and pitch alignment rules.

use vstd::prelude::*;
use crate::root::div;

verus! {

/// Alignment of a placed footprint's byte offset in a buffer.
pub const PLACEMENT_ALIGNMENT: u64 = 512;

/// Alignment of a placed footprint's row pitch.
pub const PITCH_ALIGNMENT: u32 = 256;

/// Size of a region in texels.
#[derive(Debug, Clone, Copy, PartialEq, Eq, Structural)]
pub struct Extent {
    pub width: u32,
    pub height: u32,
    pub depth: u32,
}

/// Position of a texel.
#[derive(Debug, Clone, Copy, PartialEq, Eq, Structural)]
pub struct Offset {
    pub x: i32,
    pub y: i32,
    pub z: i32,
}

impl Offset {
    /// The origin.
    pub fn zero() -> (r: Offset)
        ensures
            r == (Offset { x: 0, y: 0, z: 0 }),
    {
        Offset { x: 0, y: 0, z: 0 }
    }
}

/// The layout metadata of an image that copies and clears read.
#[derive(Debug, Clone, Copy, PartialEq, Eq, Structural)]
pub struct ImageInfo {
    /// Native resource.
    pub resource: u64,
    /// Width and height of a format block in texels.
    pub block_width: u32,
    pub block_height: u32,
    /// Bytes per format block.
    pub bytes_per_block: u32,
    /// Number of mip levels.
    pub levels: u32,
    /// Number of array layers.
    pub layers: u32,
    /// Native pixel format tag.
    pub format: u32,
    /// Precomputed clear views: color, depth, stencil.
    pub clear_color_view: Option<u64>,
    pub clear_depth_view: Option<u64>,
    pub clear_stencil_view: Option<u64>,
}

impl ImageInfo {
    /// Block and level/layer counts are positive and subresource indices fit in 32 bits.
    pub open spec fn wf(&self) -> bool {
        &&& self.block_width > 0
        &&& self.block_height > 0
        &&& self.bytes_per_block > 0
        &&& self.levels * self.layers <= u32::MAX
    }

    /// Native subresource index of mip `level` of array `layer` (plane 0).
    pub open spec fn subresource(&self, level: int, layer: int) -> int {
        level + layer * self.levels
    }

    /// Native subresource index of mip `level` of array `layer` (plane 0).
    pub fn calc_subresource(&self, level: u32, layer: u32) -> (r: u32)
        requires
            self.wf(),
            level < self.levels,
            layer < self.layers,
        ensures
            r == self.subresource(level as int, layer as int),
    {
        proof {
            assert(layer * self.levels + level < self.levels * self.layers) by (nonlinear_arith)
                requires
                    layer < self.layers,
                    level < self.levels,
            ;
        }
        level + layer * self.levels
    }
}

/// A buffer <-> image copy region: layers `layer_start..layer_end` of mip
/// `level`, the box at `image_offset` of size `image_extent`, and the
/// buffer data from `buffer_offset` with rows of `buffer_width` texels and
/// slices of `buffer_height` rows (zero meaning "as the extent").
#[derive(Debug, Clone, Copy, PartialEq, Eq, Structural)]
pub struct BufferImageCopy {
    pub buffer_offset: u64,
    pub buffer_width: u32,
    pub buffer_height: u32,
    pub level: u32,
    pub layer_start: u32,
    pub layer_end: u32,
    pub image_offset: Offset,
    pub image_extent: Extent,
}

/// One native placed-footprint copy.
#[derive(Debug, Clone, Copy, PartialEq, Eq, Structural)]
pub struct FootprintCopy {
    /// Aligned byte offset of the footprint in the buffer.
    pub footprint_offset: u64,
    /// Size of the footprint in texels.
    pub footprint: Extent,
    /// Bytes per footprint row.
    pub row_pitch: u32,
    /// Native subresource index on the image side.
    pub img_subresource: u32,
    /// Position of the copied box in the image.
    pub img_offset: Offset,
    /// Position of the copied box in the footprint.
    pub buf_offset: Offset,
    /// Size of the copied box.
    pub copy_extent: Extent,
}

/// Buffer row length in texels.
pub open spec fn buffer_width_of(r: BufferImageCopy) -> int {
    if r.buffer_width == 0 {
        r.image_extent.width as int
    } else {
        r.buffer_width as int
    }
}

/// Buffer slice height in rows.
pub open spec fn buffer_height_of(r: BufferImageCopy) -> int {
    if r.buffer_height == 0 {
        r.image_extent.height as int
    } else {
        r.buffer_height as int
    }
}

/// Bytes per buffer row.
pub open spec fn row_pitch_of(r: BufferImageCopy, img: ImageInfo) -> int {
    (buffer_width_of(r) / img.block_width as int) * img.bytes_per_block
}

/// Bytes per buffer slice.
pub open spec fn slice_pitch_of(r: BufferImageCopy, img: ImageInfo) -> int {
    (buffer_height_of(r) / img.block_height as int) * row_pitch_of(r, img)
}

/// Byte offset in the buffer of the data for array layer `layer`.
pub open spec fn layer_offset_of(r: BufferImageCopy, img: ImageInfo, layer: int) -> int {
    r.buffer_offset + layer * slice_pitch_of(r, img) * r.image_extent.depth
}

/// `x` rounded down to the placement alignment.
pub open spec fn align_down(x: int) -> int {
    x - x % (PLACEMENT_ALIGNMENT as int)
}

/// Whether layer `layer` needs a per-texel path, which only formats with
/// one-texel blocks support.
pub open spec fn layer_unaligned(r: BufferImageCopy, img: ImageInfo, layer: int) -> bool {
    row_pitch_of(r, img) % (PITCH_ALIGNMENT as int) != 0 || layer_offset_of(r, img, layer) % (
    PLACEMENT_ALIGNMENT as int) != 0
}

/// Whether the region copies no texel.
pub open spec fn region_empty(r: BufferImageCopy) -> bool {
    r.image_extent.width == 0 || r.image_extent.height == 0 || r.image_extent.depth == 0
}

/// What splitting a region asks: nothing of an empty region, which is
/// split into no copy; otherwise `region_valid`.
pub open spec fn region_ok(r: BufferImageCopy, img: ImageInfo) -> bool {
    region_empty(r) || region_valid(r, img)
}

/// What splitting a non-empty region asks: the buffer pitches are whole
/// blocks, and buffer rows and slices are at least as long as the copied
/// ones (the portable API's own rule for buffer row length and image
/// height); the layers and level exist; formats with larger blocks only
/// take the aligned path; and every offset, pitch and size fits its native
/// integer type.
pub open spec fn region_valid(r: BufferImageCopy, img: ImageInfo) -> bool {
    let e = r.image_extent;
    &&& !region_empty(r)
    &&& img.wf()
    &&& buffer_width_of(r) % (img.block_width as int) == 0
    &&& buffer_height_of(r) % (img.block_height as int) == 0
    &&& buffer_width_of(r) >= e.width
    &&& buffer_height_of(r) >= e.height
    &&& 0 < row_pitch_of(r, img)
    &&& 0 < slice_pitch_of(r, img) <= u32::MAX
    &&& r.level < img.levels
    &&& r.layer_start <= r.layer_end <= img.layers
    &&& (forall|layer: int|
        r.layer_start <= layer < r.layer_end && #[trigger] layer_unaligned(r, img, layer) ==> (
        img.block_width == 1 && img.block_height == 1))
    &&& r.buffer_offset + r.layer_end * slice_pitch_of(r, img) * e.depth + PLACEMENT_ALIGNMENT
        <= u64::MAX
    &&& e.width * img.bytes_per_block + PITCH_ALIGNMENT <= u32::MAX
    &&& e.width + PLACEMENT_ALIGNMENT <= u32::MAX
    &&& e.height + PLACEMENT_ALIGNMENT <= u32::MAX
    &&& e.depth + PLACEMENT_ALIGNMENT <= u32::MAX
    &&& 0 <= r.image_offset.x && r.image_offset.x + e.width <= i32::MAX
    &&& 0 <= r.image_offset.y && r.image_offset.y + e.height <= i32::MAX
    &&& 0 <= r.image_offset.z && r.image_offset.z + e.depth <= i32::MAX
}

/// Height of the footprint of an aligned layer: the copied height for one
/// slice; the buffer's slice height for several, so that consecutive
/// footprint slices lie one buffer slice apart.
pub open spec fn aligned_footprint_height(r: BufferImageCopy) -> u32 {
    if r.image_extent.depth > 1 {
        buffer_height_of(r) as u32
    } else {
        r.image_extent.height
    }
}

/// The copy for one layer whose offset and pitch are both aligned: the
/// region itself.
pub open spec fn aligned_copy(r: BufferImageCopy, img: ImageInfo, layer: int) -> FootprintCopy {
    FootprintCopy {
        footprint_offset: layer_offset_of(r, img, layer) as u64,
        footprint: Extent { height: aligned_footprint_height(r), ..r.image_extent },
        row_pitch: row_pitch_of(r, img) as u32,
        img_subresource: img.subresource(r.level as int, layer) as u32,
        img_offset: r.image_offset,
        buf_offset: Offset { x: 0, y: 0, z: 0 },
        copy_extent: r.image_extent,
    }
}

/// Byte offset in the buffer of slice `z` of layer `layer`.
pub open spec fn slice_offset_of(r: BufferImageCopy, img: ImageInfo, layer: int, z: int) -> int {
    layer_offset_of(r, img, layer) + z * slice_pitch_of(r, img)
}

/// The one or two copies for slice `z` of a layer whose pitch is aligned
/// but whose offset is not: the slice shifted into the footprint that
/// starts at the aligned offset below it, split in two along the width
/// where a row would run past the row pitch.
pub open spec fn shifted_slice_copies(r: BufferImageCopy, img: ImageInfo, layer: int, z: int) -> Seq<
    FootprintCopy,
> {
    let e = r.image_extent;
    let rp = row_pitch_of(r, img);
    let so = slice_offset_of(r, img, layer, z);
    let aligned = align_down(so);
    let gap = so - aligned;
    let rp_texels = rp / img.bytes_per_block as int;
    let bx = (gap % rp) / img.bytes_per_block as int;
    let by = gap / rp;
    let buf_offset = Offset { x: bx as i32, y: by as i32, z: 0 };
    let footprint = Extent { width: (bx + e.width) as u32, height: (by + e.height) as u32, depth: 1 };
    let img_offset = Offset { z: (r.image_offset.z + z) as i32, ..r.image_offset };
    let slice = Extent { depth: 1, ..e };
    let sub = img.subresource(r.level as int, layer) as u32;
    if e.width + bx <= rp_texels {
        seq![
            FootprintCopy {
                footprint_offset: aligned as u64,
                footprint,
                row_pitch: rp as u32,
                img_subresource: sub,
                img_offset,
                buf_offset,
                copy_extent: slice,
            },
        ]
    } else {
        let half = rp_texels - bx;
        seq![
            FootprintCopy {
                footprint_offset: aligned as u64,
                footprint: Extent { width: rp_texels as u32, ..footprint },
                row_pitch: rp as u32,
                img_subresource: sub,
                img_offset,
                buf_offset,
                copy_extent: Extent { width: half as u32, ..slice },
            },
            FootprintCopy {
                footprint_offset: aligned as u64,
                footprint: Extent {
                    width: (e.width - half) as u32,
                    height: (footprint.height + 1) as u32,
                    depth: 1,
                },
                row_pitch: rp as u32,
                img_subresource: sub,
                img_offset: Offset { x: (r.image_offset.x + half) as i32, ..img_offset },
                buf_offset: Offset { x: 0, y: (by + 1) as i32, z: 0 },
                copy_extent: Extent { width: (e.width - half) as u32, ..slice },
            },
        ]
    }
}

/// The copies of slices `0..slices` of a layer whose pitch is aligned but
/// whose offset is not.
pub open spec fn shifted_slices(r: BufferImageCopy, img: ImageInfo, layer: int, slices: int) -> Seq<
    FootprintCopy,
>
    decreases slices,
{
    if slices <= 0 {
        Seq::empty()
    } else {
        shifted_slices(r, img, layer, slices - 1) + shifted_slice_copies(r, img, layer, slices - 1)
    }
}

/// The copies for one layer whose pitch is aligned but whose offset is not:
/// slice by slice.
pub open spec fn shifted_copies(r: BufferImageCopy, img: ImageInfo, layer: int) -> Seq<
    FootprintCopy,
> {
    shifted_slices(r, img, layer, r.image_extent.depth as int)
}

/// The one or two copies for row `y` of slice `z` of a layer whose pitch is
/// not aligned: the part of the row up to the next placement boundary, and
/// the rest of it from that boundary on.
pub open spec fn row_copies(r: BufferImageCopy, img: ImageInfo, layer: int, z: int, y: int) -> Seq<
    FootprintCopy,
> {
    let e = r.image_extent;
    let bpb = img.bytes_per_block as int;
    let row_offset = layer_offset_of(r, img, layer) + z * slice_pitch_of(r, img) + y
        * row_pitch_of(r, img);
    let aligned = align_down(row_offset);
    let next = aligned + PLACEMENT_ALIGNMENT;
    let cut_row_texels = (next - row_offset) / bpb;
    let cut_width = if e.width < cut_row_texels {
        e.width as int
    } else {
        cut_row_texels
    };
    let gap_texels = (row_offset - aligned) / bpb;
    let pitch = (e.width * bpb) - (e.width * bpb) % (PITCH_ALIGNMENT as int) + PITCH_ALIGNMENT;
    let sub = img.subresource(r.level as int, layer) as u32;
    let first = FootprintCopy {
        footprint_offset: aligned as u64,
        footprint: Extent { width: (cut_width + gap_texels) as u32, height: 1, depth: 1 },
        row_pitch: pitch as u32,
        img_subresource: sub,
        img_offset: Offset {
            x: r.image_offset.x,
            y: (r.image_offset.y + y) as i32,
            z: (r.image_offset.z + z) as i32,
        },
        buf_offset: Offset { x: gap_texels as i32, y: 0, z: 0 },
        copy_extent: Extent { width: cut_width as u32, height: 1, depth: 1 },
    };
    if cut_width == e.width {
        seq![first]
    } else {
        let leftover = e.width - cut_width;
        seq![
            first,
            FootprintCopy {
                footprint_offset: next as u64,
                footprint: Extent { width: leftover as u32, height: 1, depth: 1 },
                row_pitch: pitch as u32,
                img_subresource: sub,
                img_offset: Offset {
                    x: (r.image_offset.x + cut_width) as i32,
                    y: (r.image_offset.y + y) as i32,
                    z: (r.image_offset.z + z) as i32,
                },
                buf_offset: Offset { x: 0, y: 0, z: 0 },
                copy_extent: Extent { width: leftover as u32, height: 1, depth: 1 },
            },
        ]
    }
}

/// The row copies of rows `0..rows` of slice `z`.
pub open spec fn slice_copies(r: BufferImageCopy, img: ImageInfo, layer: int, z: int, rows: int) -> Seq<
    FootprintCopy,
>
    decreases rows,
{
    if rows <= 0 {
        Seq::empty()
    } else {
        slice_copies(r, img, layer, z, rows - 1) + row_copies(r, img, layer, z, rows - 1)
    }
}

/// The row copies of slices `0..slices` of a layer.
pub open spec fn rowwise_copies(r: BufferImageCopy, img: ImageInfo, layer: int, slices: int) -> Seq<
    FootprintCopy,
>
    decreases slices,
{
    if slices <= 0 {
        Seq::empty()
    } else {
        rowwise_copies(r, img, layer, slices - 1) + slice_copies(
            r,
            img,
            layer,
            slices - 1,
            r.image_extent.height as int,
        )
    }
}

/// The copies for array layer `layer`.
pub open spec fn layer_copies(r: BufferImageCopy, img: ImageInfo, layer: int) -> Seq<FootprintCopy> {
    let pitch_aligned = row_pitch_of(r, img) % (PITCH_ALIGNMENT as int) == 0;
    let offset_aligned = layer_offset_of(r, img, layer) % (PLACEMENT_ALIGNMENT as int) == 0;
    if pitch_aligned && offset_aligned {
        seq![aligned_copy(r, img, layer)]
    } else if pitch_aligned {
        shifted_copies(r, img, layer)
    } else {
        rowwise_copies(r, img, layer, r.image_extent.depth as int)
    }
}

/// The copies for the layers `layer_start..upto`.
pub open spec fn region_copies(r: BufferImageCopy, img: ImageInfo, upto: int) -> Seq<FootprintCopy>
    decreases upto - r.layer_start,
{
    if upto <= r.layer_start {
        Seq::empty()
    } else {
        region_copies(r, img, upto - 1) + layer_copies(r, img, upto - 1)
    }
}

/// The copies that splitting region `r` of image `img` produces.
pub open spec fn split_copies(r: BufferImageCopy, img: ImageInfo) -> Seq<FootprintCopy> {
    if region_empty(r) {
        Seq::empty()
    } else {
        region_copies(r, img, r.layer_end as int)
    }
}

proof fn lemma_align_down(x: u64)
    ensures
        x & !511u64 == x - x % 512,
        x % 512 == 0 <==> x & !511u64 == x,
{
    assert(x & !511u64 == x - x % 512) by (bit_vector);
}

proof fn lemma_pitch_round_up(m: u32)
    requires
        m <= u32::MAX - 256,
    ensures
        (m | 255u32) + 1 == m - m % 256 + 256,
{
    assert((m | 255u32) + 1 == m - m % 256 + 256) by (bit_vector)
        requires
            m <= u32::MAX - 256,
    ;
}

/// Appends the copies for row `y` of slice `z` of a layer whose pitch is
/// not aligned.
fn push_row_copies(
    copies: &mut Vec<FootprintCopy>,
    r: &BufferImageCopy,
    img: &ImageInfo,
    layer: u32,
    layer_offset: u64,
    row_pitch: u32,
    slice_pitch: u32,
    img_subresource: u32,
    z: u32,
    y: u32,
)
    requires
        region_valid(*r, *img),
        r.layer_start <= layer < r.layer_end,
        layer_unaligned(*r, *img, layer as int),
        layer_offset == layer_offset_of(*r, *img, layer as int),
        row_pitch == row_pitch_of(*r, *img),
        slice_pitch == slice_pitch_of(*r, *img),
        img_subresource == img.subresource(r.level as int, layer as int),
        z < r.image_extent.depth,
        y < r.image_extent.height,
    ensures
        final(copies)@ == old(copies)@ + row_copies(*r, *img, layer as int, z as int, y as int),
{
    let e = r.image_extent;
    let bpb = img.bytes_per_block;
    proof {
        assert(img.block_width == 1 && img.block_height == 1);
        let sp = slice_pitch as int;
        let rp = row_pitch as int;
        assert(buffer_height_of(*r) / 1 == buffer_height_of(*r));
        assert(sp == buffer_height_of(*r) * rp);
        assert(z * sp + y * rp < e.depth * sp) by (nonlinear_arith)
            requires
                z < e.depth,
                y < e.height,
                e.height <= buffer_height_of(*r),
                sp == buffer_height_of(*r) * rp,
                rp > 0,
        ;
        assert((layer + 1) * sp * e.depth <= r.layer_end * sp * e.depth) by (nonlinear_arith)
            requires
                layer < r.layer_end,
                sp >= 0,
        ;
        assert(layer * sp * e.depth + e.depth * sp == (layer + 1) * sp * e.depth)
            by (nonlinear_arith);
        assert(e.width * bpb <= u32::MAX - 256);
    }
    let row_offset: u64 = layer_offset + z as u64 * slice_pitch as u64 + y as u64 * row_pitch as u64;
    let aligned_offset = row_offset & !(PLACEMENT_ALIGNMENT - 1);
    proof {
        lemma_align_down(row_offset);
    }
    let next_aligned_offset = aligned_offset + PLACEMENT_ALIGNMENT;
    let cut_row_texels = (next_aligned_offset - row_offset) / bpb as u64;
    let cut_width: u32 = if (e.width as u64) < cut_row_texels {
        e.width
    } else {
        cut_row_texels as u32
    };
    let gap_texels = ((row_offset - aligned_offset) / bpb as u64) as u32;
    let max_unaligned_pitch = e.width * bpb;
    proof {
        lemma_pitch_round_up(max_unaligned_pitch);
    }
    let pitch = (max_unaligned_pitch | (PITCH_ALIGNMENT - 1)) + 1;
    proof {
        assert(cut_width + gap_texels <= 512) by (nonlinear_arith)
            requires
                cut_width <= (next_aligned_offset - row_offset) / bpb as int,
                gap_texels == (row_offset - aligned_offset) / bpb as int,
                next_aligned_offset - aligned_offset == 512,
                aligned_offset <= row_offset < next_aligned_offset,
                bpb >= 1,
        ;
    }
    copies.push(
        FootprintCopy {
            footprint_offset: aligned_offset,
            footprint: Extent { width: cut_width + gap_texels, height: 1, depth: 1 },
            row_pitch: pitch,
            img_subresource,
            img_offset: Offset {
                x: r.image_offset.x,
                y: r.image_offset.y + y as i32,
                z: r.image_offset.z + z as i32,
            },
            buf_offset: Offset { x: gap_texels as i32, y: 0, z: 0 },
            copy_extent: Extent { width: cut_width, height: 1, depth: 1 },
        },
    );
    if cut_width == e.width {
        return ;
    }
    let leftover = e.width - cut_width;
    copies.push(
        FootprintCopy {
            footprint_offset: next_aligned_offset,
            footprint: Extent { width: leftover, height: 1, depth: 1 },
            row_pitch: pitch,
            img_subresource,
            img_offset: Offset {
                x: r.image_offset.x + cut_width as i32,
                y: r.image_offset.y + y as i32,
                z: r.image_offset.z + z as i32,
            },
            buf_offset: Offset { x: 0, y: 0, z: 0 },
            copy_extent: Extent { width: leftover, height: 1, depth: 1 },
        },
    );
}

/// Slice `z` of layer `layer` lies inside the buffer range the region allows.
proof fn lemma_slice_in_range(r: BufferImageCopy, img: ImageInfo, layer: int, z: int)
    requires
        region_valid(r, img),
        r.layer_start <= layer < r.layer_end,
        0 <= z < r.image_extent.depth,
    ensures
        0 <= layer_offset_of(r, img, layer) <= slice_offset_of(r, img, layer, z),
        slice_offset_of(r, img, layer, z) + PLACEMENT_ALIGNMENT <= u64::MAX,
{
    let sp = slice_pitch_of(r, img);
    let d = r.image_extent.depth as int;
    assert(0 <= layer * sp * d) by (nonlinear_arith)
        requires
            0 <= layer,
            0 <= sp,
            0 <= d,
    ;
    assert(0 <= z * sp < d * sp) by (nonlinear_arith)
        requires
            0 <= z < d,
            0 < sp,
    ;
    assert(layer * sp * d + d * sp <= r.layer_end * sp * d) by (nonlinear_arith)
        requires
            layer < r.layer_end,
            sp >= 0,
            0 <= layer,
            0 <= d,
    ;
}

/// Appends the copies for slice `z` of a layer whose pitch is aligned but
/// whose offset is not.
fn push_shifted_slice(
    copies: &mut Vec<FootprintCopy>,
    r: &BufferImageCopy,
    img: &ImageInfo,
    layer: u32,
    layer_offset: u64,
    row_pitch: u32,
    slice_pitch: u32,
    img_subresource: u32,
    z: u32,
)
    requires
        region_valid(*r, *img),
        r.layer_start <= layer < r.layer_end,
        layer_unaligned(*r, *img, layer as int),
        layer_offset == layer_offset_of(*r, *img, layer as int),
        row_pitch == row_pitch_of(*r, *img),
        slice_pitch == slice_pitch_of(*r, *img),
        img_subresource == img.subresource(r.level as int, layer as int),
        z < r.image_extent.depth,
    ensures
        final(copies)@ == old(copies)@ + shifted_slice_copies(*r, *img, layer as int, z as int),
{
    let e = r.image_extent;
    let bpb = img.bytes_per_block;
    proof {
        lemma_slice_in_range(*r, *img, layer as int, z as int);
    }
    let slice_offset: u64 = layer_offset + z as u64 * slice_pitch as u64;
    let aligned_offset = slice_offset & !(PLACEMENT_ALIGNMENT - 1);
    proof {
        lemma_align_down(slice_offset);
    }
    let row_pitch_texels = row_pitch / bpb;
    let gap: u64 = slice_offset - aligned_offset;
    let bx: u32 = ((gap % row_pitch as u64) / bpb as u64) as u32;
    let by: u32 = (gap / row_pitch as u64) as u32;
    proof {
        assert(gap < 512);
        assert(bx <= gap) by (nonlinear_arith)
            requires
                bx == (gap as int % row_pitch as int) / bpb as int,
                bpb >= 1,
                row_pitch >= 1,
        ;
        assert(by <= gap) by (nonlinear_arith)
            requires
                by == gap as int / row_pitch as int,
                row_pitch >= 1,
        ;
    }
    let buf_offset = Offset { x: bx as i32, y: by as i32, z: 0 };
    let footprint = Extent { width: bx + e.width, height: by + e.height, depth: 1 };
    let img_offset = Offset { z: r.image_offset.z + z as i32, ..r.image_offset };
    let slice = Extent { depth: 1, ..e };
    if e.width + bx <= row_pitch_texels {
        copies.push(
            FootprintCopy {
                footprint_offset: aligned_offset,
                footprint,
                row_pitch,
                img_subresource,
                img_offset,
                buf_offset,
                copy_extent: slice,
            },
        );
    } else {
        proof {
            assert(bx <= row_pitch_texels) by (nonlinear_arith)
                requires
                    bx == (gap as int % row_pitch as int) / bpb as int,
                    row_pitch_texels == row_pitch as int / bpb as int,
                    bpb >= 1,
                    row_pitch >= 1,
            ;
        }
        let half = row_pitch_texels - bx;
        copies.push(
            FootprintCopy {
                footprint_offset: aligned_offset,
                footprint: Extent { width: row_pitch_texels, ..footprint },
                row_pitch,
                img_subresource,
                img_offset,
                buf_offset,
                copy_extent: Extent { width: half, ..slice },
            },
        );
        copies.push(
            FootprintCopy {
                footprint_offset: aligned_offset,
                footprint: Extent { width: e.width - half, height: footprint.height + 1, depth: 1 },
                row_pitch,
                img_subresource,
                img_offset: Offset { x: r.image_offset.x + half as i32, ..img_offset },
                buf_offset: Offset { x: 0, y: by as i32 + 1, z: 0 },
                copy_extent: Extent { width: e.width - half, ..slice },
            },
        );
    }
}

/// Splits copy region `r` of image `img` into placed-footprint copies and
/// appends them to `copies`, layer by layer: one unchanged copy where the
/// layer's buffer offset and the row pitch are aligned (its footprint one
/// buffer slice tall per slice when it spans several); slice by slice, a
/// copy shifted into the aligned footprint (split in two along the width
/// where a row would cross the pitch) where only the pitch is; one or two
/// copies per row otherwise. An empty region gives no copy.
pub fn split_buffer_copy(copies: &mut Vec<FootprintCopy>, r: &BufferImageCopy, img: &ImageInfo)
    requires
        region_ok(*r, *img),
    ensures
        final(copies)@ == old(copies)@ + split_copies(*r, *img),
{
    let e = r.image_extent;
    if e.width == 0 || e.height == 0 || e.depth == 0 {
        proof {
            assert(copies@ =~= old(copies)@ + split_copies(*r, *img));
        }
        return ;
    }
    let buffer_width = if r.buffer_width == 0 {
        e.width
    } else {
        r.buffer_width
    };
    let buffer_height = if r.buffer_height == 0 {
        e.height
    } else {
        r.buffer_height
    };
    proof {
        let w = buffer_width / img.block_width;
        let h = buffer_height / img.block_height;
        assert(w <= buffer_width);
        assert(h <= buffer_height);
        assert(w * img.bytes_per_block == row_pitch_of(*r, *img));
        assert(h * row_pitch_of(*r, *img) == slice_pitch_of(*r, *img));
        assert(row_pitch_of(*r, *img) <= slice_pitch_of(*r, *img)) by (nonlinear_arith)
            requires
                h * row_pitch_of(*r, *img) == slice_pitch_of(*r, *img),
                slice_pitch_of(*r, *img) > 0,
                row_pitch_of(*r, *img) > 0,
        ;
    }
    let row_pitch = div(buffer_width, img.block_width) * img.bytes_per_block;
    let slice_pitch = div(buffer_height, img.block_height) * row_pitch;
    let is_pitch_aligned = row_pitch % PITCH_ALIGNMENT == 0;

    let mut layer: u32 = r.layer_start;
    while layer < r.layer_end
        invariant
            region_valid(*r, *img),
            e == r.image_extent,
            row_pitch == row_pitch_of(*r, *img),
            slice_pitch == slice_pitch_of(*r, *img),
            is_pitch_aligned == (row_pitch_of(*r, *img) % (PITCH_ALIGNMENT as int) == 0),
            buffer_height == buffer_height_of(*r),
            r.layer_start <= layer <= r.layer_end,
            copies@ == old(copies)@ + region_copies(*r, *img, layer as int),
        decreases r.layer_end - layer,
    {
        let img_subresource = img.calc_subresource(r.level, layer);
        proof {
            let sp = slice_pitch as int;
            assert(layer * sp * e.depth <= r.layer_end * sp * e.depth) by (nonlinear_arith)
                requires
                    layer < r.layer_end,
                    sp >= 0,
            ;
            assert(layer * sp <= 0xffff_ffff * 0xffff_ffff) by (nonlinear_arith)
                requires
                    layer <= 0xffff_ffff,
                    0 <= sp <= 0xffff_ffff,
            ;
        }
        let layer_offset: u64 = r.buffer_offset + layer as u64 * slice_pitch as u64 * e.depth as u64;
        let aligned_offset = layer_offset & !(PLACEMENT_ALIGNMENT - 1);
        proof {
            lemma_align_down(layer_offset);
        }
        let ghost before = copies@;
        if layer_offset == aligned_offset && is_pitch_aligned {
            let footprint_height = if e.depth > 1 {
                buffer_height
            } else {
                e.height
            };
            copies.push(
                FootprintCopy {
                    footprint_offset: aligned_offset,
                    footprint: Extent { height: footprint_height, ..e },
                    row_pitch,
                    img_subresource,
                    img_offset: r.image_offset,
                    buf_offset: Offset::zero(),
                    copy_extent: e,
                },
            );
        } else if is_pitch_aligned {
            let mut z: u32 = 0;
            while z < e.depth
                invariant
                    region_valid(*r, *img),
                    e == r.image_extent,
                    r.layer_start <= layer < r.layer_end,
                    layer_unaligned(*r, *img, layer as int),
                    layer_offset == layer_offset_of(*r, *img, layer as int),
                    row_pitch == row_pitch_of(*r, *img),
                    slice_pitch == slice_pitch_of(*r, *img),
                    img_subresource == img.subresource(r.level as int, layer as int),
                    0 <= z <= e.depth,
                    copies@ == before + shifted_slices(*r, *img, layer as int, z as int),
                decreases e.depth - z,
            {
                push_shifted_slice(
                    copies,
                    r,
                    img,
                    layer,
                    layer_offset,
                    row_pitch,
                    slice_pitch,
                    img_subresource,
                    z,
                );
                proof {
                    assert(copies@ =~= before + shifted_slices(*r, *img, layer as int, z + 1));
                }
                z = z + 1;
            }
        } else {
            let mut z: u32 = 0;
            while z < e.depth
                invariant
                    region_valid(*r, *img),
                    e == r.image_extent,
                    r.layer_start <= layer < r.layer_end,
                    layer_unaligned(*r, *img, layer as int),
                    layer_offset == layer_offset_of(*r, *img, layer as int),
                    row_pitch == row_pitch_of(*r, *img),
                    slice_pitch == slice_pitch_of(*r, *img),
                    img_subresource == img.subresource(r.level as int, layer as int),
                    0 <= z <= e.depth,
                    copies@ == before + rowwise_copies(*r, *img, layer as int, z as int),
                decreases e.depth - z,
            {
                let mut y: u32 = 0;
                while y < e.height
                    invariant
                        region_valid(*r, *img),
                        e == r.image_extent,
                        r.layer_start <= layer < r.layer_end,
                        layer_unaligned(*r, *img, layer as int),
                        layer_offset == layer_offset_of(*r, *img, layer as int),
                        row_pitch == row_pitch_of(*r, *img),
                        slice_pitch == slice_pitch_of(*r, *img),
                        img_subresource == img.subresource(r.level as int, layer as int),
                        z < e.depth,
                        0 <= y <= e.height,
                        copies@ == before + rowwise_copies(*r, *img, layer as int, z as int)
                            + slice_copies(*r, *img, layer as int, z as int, y as int),
                    decreases e.height - y,
                {
                    push_row_copies(
                        copies,
                        r,
                        img,
                        layer,
                        layer_offset,
                        row_pitch,
                        slice_pitch,
                        img_subresource,
                        z,
                        y,
                    );
                    proof {
                        assert(copies@ =~= before + rowwise_copies(*r, *img, layer as int, z as int)
                            + slice_copies(*r, *img, layer as int, z as int, y + 1));
                    }
                    y = y + 1;
                }
                proof {
                    assert(copies@ =~= before + rowwise_copies(*r, *img, layer as int, z + 1));
                }
                z = z + 1;
            }
        }
        proof {
            assert(copies@ =~= old(copies)@ + region_copies(*r, *img, layer + 1));
        }
        layer = layer + 1;
    }
}

} // verus!

verus! {

/// Splitting a layer whose buffer offset is placement-aligned, in a region
/// whose row pitch is pitch-aligned, gives exactly one copy: the region
/// itself, with the full extent as copy size, the image offset unchanged
/// and no offset inside the footprint. The footprint is the extent for one
/// slice; for several, its height is the buffer's slice height.
pub proof fn lemma_aligned_layer_single_copy(r: BufferImageCopy, img: ImageInfo, layer: int)
    requires
        region_valid(r, img),
        r.layer_start <= layer < r.layer_end,
        row_pitch_of(r, img) % (PITCH_ALIGNMENT as int) == 0,
        layer_offset_of(r, img, layer) % (PLACEMENT_ALIGNMENT as int) == 0,
    ensures
        layer_copies(r, img, layer).len() == 1,
        layer_copies(r, img, layer)[0].footprint_offset == layer_offset_of(r, img, layer),
        layer_copies(r, img, layer)[0].footprint == (Extent {
            height: aligned_footprint_height(r),
            ..r.image_extent
        }),
        r.image_extent.depth == 1 ==> layer_copies(r, img, layer)[0].footprint == r.image_extent,
        layer_copies(r, img, layer)[0].copy_extent == r.image_extent,
        layer_copies(r, img, layer)[0].img_offset == r.image_offset,
        layer_copies(r, img, layer)[0].buf_offset == (Offset { x: 0, y: 0, z: 0 }),
        layer_copies(r, img, layer)[0].row_pitch == row_pitch_of(r, img),
{
    assert(layer * slice_pitch_of(r, img) * r.image_extent.depth <= r.layer_end * slice_pitch_of(
        r,
        img,
    ) * r.image_extent.depth) by (nonlinear_arith)
        requires
            layer < r.layer_end,
            slice_pitch_of(r, img) >= 0,
            0 <= layer,
    ;
    let h = buffer_height_of(r) / img.block_height as int;
    assert(row_pitch_of(r, img) <= slice_pitch_of(r, img)) by (nonlinear_arith)
        requires
            h * row_pitch_of(r, img) == slice_pitch_of(r, img),
            slice_pitch_of(r, img) > 0,
            row_pitch_of(r, img) > 0,
    ;
}

/// Whether copy `c` writes (or reads) image texel `(x, y, z)` of subresource `sub`.
pub open spec fn covers(c: FootprintCopy, sub: int, x: int, y: int, z: int) -> bool {
    &&& c.img_subresource == sub
    &&& c.img_offset.x <= x < c.img_offset.x + c.copy_extent.width
    &&& c.img_offset.y <= y < c.img_offset.y + c.copy_extent.height
    &&& c.img_offset.z <= z < c.img_offset.z + c.copy_extent.depth
}

/// Number of copies in `s` that cover texel `(x, y, z)` of subresource `sub`.
pub open spec fn cover_count(s: Seq<FootprintCopy>, sub: int, x: int, y: int, z: int) -> int
    decreases s.len(),
{
    if s.len() == 0 {
        0
    } else {
        cover_count(s.drop_last(), sub, x, y, z) + if covers(s.last(), sub, x, y, z) {
            1int
        } else {
            0int
        }
    }
}

/// Whether texel `(x, y, z)` of subresource `sub` lies in the image box of
/// layer `layer` of region `r`.
pub open spec fn in_region(r: BufferImageCopy, img: ImageInfo, layer: int, sub: int, x: int, y: int, z: int) -> bool {
    &&& sub == img.subresource(r.level as int, layer) as u32
    &&& r.image_offset.x <= x < r.image_offset.x + r.image_extent.width
    &&& r.image_offset.y <= y < r.image_offset.y + r.image_extent.height
    &&& r.image_offset.z <= z < r.image_offset.z + r.image_extent.depth
}

pub proof fn lemma_cover_count_append(a: Seq<FootprintCopy>, b: Seq<FootprintCopy>, sub: int, x: int, y: int, z: int)
    ensures
        cover_count(a + b, sub, x, y, z) == cover_count(a, sub, x, y, z) + cover_count(b, sub, x, y, z),
    decreases b.len(),
{
    if b.len() > 0 {
        lemma_cover_count_append(a, b.drop_last(), sub, x, y, z);
        assert((a + b).drop_last() =~= a + b.drop_last());
        assert((a + b).last() == b.last());
    } else {
        assert(a + b =~= a);
    }
}

proof fn lemma_cover_count_pair(c: FootprintCopy, d: FootprintCopy, sub: int, x: int, y: int, z: int)
    ensures
        cover_count(seq![c], sub, x, y, z) == if covers(c, sub, x, y, z) {
            1int
        } else {
            0int
        },
        cover_count(seq![c, d], sub, x, y, z) == (if covers(c, sub, x, y, z) {
            1int
        } else {
            0int
        }) + (if covers(d, sub, x, y, z) {
            1int
        } else {
            0int
        }),
{
    assert(seq![c].drop_last() =~= Seq::<FootprintCopy>::empty());
    assert(seq![c, d].drop_last() =~= seq![c]);
    assert(cover_count(Seq::<FootprintCopy>::empty(), sub, x, y, z) == 0);
    assert(seq![c].last() == c);
    assert(seq![c, d].last() == d);
    assert(cover_count(seq![c], sub, x, y, z) == cover_count(seq![c].drop_last(), sub, x, y, z) + if covers(c, sub, x, y, z) {
        1int
    } else {
        0int
    });
    assert(cover_count(seq![c, d], sub, x, y, z) == cover_count(seq![c, d].drop_last(), sub, x, y, z) + if covers(d, sub, x, y, z) {
        1int
    } else {
        0int
    });
}

proof fn lemma_row_cover(r: BufferImageCopy, img: ImageInfo, layer: int, zz: int, yy: int, sub: int, x: int, y: int, z: int)
    requires
        region_valid(r, img),
        r.layer_start <= layer < r.layer_end,
        0 <= zz < r.image_extent.depth,
        0 <= yy < r.image_extent.height,
    ensures
        cover_count(row_copies(r, img, layer, zz, yy), sub, x, y, z) == if sub == img.subresource(
            r.level as int,
            layer,
        ) as u32 && r.image_offset.x <= x < r.image_offset.x + r.image_extent.width && y
            == r.image_offset.y + yy && z == r.image_offset.z + zz {
            1int
        } else {
            0int
        },
{
    let s = row_copies(r, img, layer, zz, yy);
    lemma_cover_count_pair(s[0], if s.len() > 1 { s[1] } else { s[0] }, sub, x, y, z);
    if s.len() > 1 {
        assert(s =~= seq![s[0], s[1]]);
    } else {
        assert(s =~= seq![s[0]]);
    }
}

} // verus!

verus! {

proof fn lemma_slice_cover(r: BufferImageCopy, img: ImageInfo, layer: int, zz: int, rows: int, sub: int, x: int, y: int, z: int)
    requires
        region_valid(r, img),
        r.layer_start <= layer < r.layer_end,
        0 <= zz < r.image_extent.depth,
        0 <= rows <= r.image_extent.height,
    ensures
        cover_count(slice_copies(r, img, layer, zz, rows), sub, x, y, z) == if sub == img.subresource(
            r.level as int,
            layer,
        ) as u32 && r.image_offset.x <= x < r.image_offset.x + r.image_extent.width
            && r.image_offset.y <= y < r.image_offset.y + rows && z == r.image_offset.z + zz {
            1int
        } else {
            0int
        },
    decreases rows,
{
    if rows > 0 {
        lemma_slice_cover(r, img, layer, zz, rows - 1, sub, x, y, z);
        lemma_row_cover(r, img, layer, zz, rows - 1, sub, x, y, z);
        lemma_cover_count_append(
            slice_copies(r, img, layer, zz, rows - 1),
            row_copies(r, img, layer, zz, rows - 1),
            sub,
            x,
            y,
            z,
        );
    } else {
        assert(cover_count(Seq::<FootprintCopy>::empty(), sub, x, y, z) == 0);
    }
}

proof fn lemma_rowwise_cover(r: BufferImageCopy, img: ImageInfo, layer: int, slices: int, sub: int, x: int, y: int, z: int)
    requires
        region_valid(r, img),
        r.layer_start <= layer < r.layer_end,
        0 <= slices <= r.image_extent.depth,
    ensures
        cover_count(rowwise_copies(r, img, layer, slices), sub, x, y, z) == if sub
            == img.subresource(r.level as int, layer) as u32 && r.image_offset.x <= x
            < r.image_offset.x + r.image_extent.width && r.image_offset.y <= y < r.image_offset.y
            + r.image_extent.height && r.image_offset.z <= z < r.image_offset.z + slices {
            1int
        } else {
            0int
        },
    decreases slices,
{
    if slices > 0 {
        lemma_rowwise_cover(r, img, layer, slices - 1, sub, x, y, z);
        lemma_slice_cover(r, img, layer, slices - 1, r.image_extent.height as int, sub, x, y, z);
        lemma_cover_count_append(
            rowwise_copies(r, img, layer, slices - 1),
            slice_copies(r, img, layer, slices - 1, r.image_extent.height as int),
            sub,
            x,
            y,
            z,
        );
    } else {
        assert(cover_count(Seq::<FootprintCopy>::empty(), sub, x, y, z) == 0);
    }
}

proof fn lemma_shifted_slice_bounds(r: BufferImageCopy, img: ImageInfo, layer: int, zz: int)
    requires
        region_valid(r, img),
        r.layer_start <= layer < r.layer_end,
        0 <= zz < r.image_extent.depth,
    ensures
        ({
            let rp = row_pitch_of(r, img);
            let so = slice_offset_of(r, img, layer, zz);
            let gap = so - align_down(so);
            let bpb = img.bytes_per_block as int;
            &&& 0 <= gap < 512
            &&& 0 <= (gap % rp) / bpb <= gap
            &&& (gap % rp) / bpb <= rp / bpb
            &&& 0 <= gap / rp <= gap
            &&& 0 <= align_down(so) <= so
            &&& so + PLACEMENT_ALIGNMENT <= u64::MAX
        }),
{
    lemma_slice_in_range(r, img, layer, zz);
    let rp = row_pitch_of(r, img);
    let so = slice_offset_of(r, img, layer, zz);
    let gap = so - align_down(so);
    let bpb = img.bytes_per_block as int;
    assert(0 <= (gap % rp) / bpb <= gap) by (nonlinear_arith)
        requires
            0 <= gap,
            rp >= 1,
            bpb >= 1,
    ;
    assert((gap % rp) / bpb <= rp / bpb) by (nonlinear_arith)
        requires
            0 <= gap,
            rp >= 1,
            bpb >= 1,
    ;
    assert(0 <= gap / rp <= gap) by (nonlinear_arith)
        requires
            0 <= gap,
            rp >= 1,
    ;
}

proof fn lemma_shifted_slice_cover(
    r: BufferImageCopy,
    img: ImageInfo,
    layer: int,
    zz: int,
    sub: int,
    x: int,
    y: int,
    z: int,
)
    requires
        region_valid(r, img),
        r.layer_start <= layer < r.layer_end,
        0 <= zz < r.image_extent.depth,
    ensures
        cover_count(shifted_slice_copies(r, img, layer, zz), sub, x, y, z) == if sub
            == img.subresource(r.level as int, layer) as u32 && r.image_offset.x <= x
            < r.image_offset.x + r.image_extent.width && r.image_offset.y <= y < r.image_offset.y
            + r.image_extent.height && z == r.image_offset.z + zz {
            1int
        } else {
            0int
        },
{
    lemma_shifted_slice_bounds(r, img, layer, zz);
    let s = shifted_slice_copies(r, img, layer, zz);
    lemma_cover_count_pair(s[0], if s.len() > 1 { s[1] } else { s[0] }, sub, x, y, z);
    if s.len() > 1 {
        assert(s =~= seq![s[0], s[1]]);
    } else {
        assert(s =~= seq![s[0]]);
    }
}

proof fn lemma_shifted_slices_cover(
    r: BufferImageCopy,
    img: ImageInfo,
    layer: int,
    slices: int,
    sub: int,
    x: int,
    y: int,
    z: int,
)
    requires
        region_valid(r, img),
        r.layer_start <= layer < r.layer_end,
        0 <= slices <= r.image_extent.depth,
    ensures
        cover_count(shifted_slices(r, img, layer, slices), sub, x, y, z) == if sub
            == img.subresource(r.level as int, layer) as u32 && r.image_offset.x <= x
            < r.image_offset.x + r.image_extent.width && r.image_offset.y <= y < r.image_offset.y
            + r.image_extent.height && r.image_offset.z <= z < r.image_offset.z + slices {
            1int
        } else {
            0int
        },
    decreases slices,
{
    if slices > 0 {
        lemma_shifted_slices_cover(r, img, layer, slices - 1, sub, x, y, z);
        lemma_shifted_slice_cover(r, img, layer, slices - 1, sub, x, y, z);
        lemma_cover_count_append(
            shifted_slices(r, img, layer, slices - 1),
            shifted_slice_copies(r, img, layer, slices - 1),
            sub,
            x,
            y,
            z,
        );
    } else {
        assert(cover_count(Seq::<FootprintCopy>::empty(), sub, x, y, z) == 0);
    }
}

proof fn lemma_shifted_cover(r: BufferImageCopy, img: ImageInfo, layer: int, sub: int, x: int, y: int, z: int)
    requires
        region_valid(r, img),
        r.layer_start <= layer < r.layer_end,
    ensures
        cover_count(shifted_copies(r, img, layer), sub, x, y, z) == if in_region(
            r,
            img,
            layer,
            sub,
            x,
            y,
            z,
        ) {
            1int
        } else {
            0int
        },
{
    lemma_shifted_slices_cover(r, img, layer, r.image_extent.depth as int, sub, x, y, z);
}

/// Copy coverage on the image side: for every layer of a region, each
/// texel of the layer's box is covered by exactly one of the layer's
/// copies, and no texel outside the box (or of another subresource) by any.
pub proof fn lemma_layer_copies_cover_image(
    r: BufferImageCopy,
    img: ImageInfo,
    layer: int,
    sub: int,
    x: int,
    y: int,
    z: int,
)
    requires
        region_valid(r, img),
        r.layer_start <= layer < r.layer_end,
    ensures
        cover_count(layer_copies(r, img, layer), sub, x, y, z) == if in_region(
            r,
            img,
            layer,
            sub,
            x,
            y,
            z,
        ) {
            1int
        } else {
            0int
        },
{
    let pitch_aligned = row_pitch_of(r, img) % (PITCH_ALIGNMENT as int) == 0;
    let offset_aligned = layer_offset_of(r, img, layer) % (PLACEMENT_ALIGNMENT as int) == 0;
    if pitch_aligned && offset_aligned {
        let c = aligned_copy(r, img, layer);
        lemma_cover_count_pair(c, c, sub, x, y, z);
    } else if pitch_aligned {
        lemma_shifted_cover(r, img, layer, sub, x, y, z);
    } else {
        lemma_rowwise_cover(r, img, layer, r.image_extent.depth as int, sub, x, y, z);
    }
}

} // verus!

verus! {

/// Byte offset in the buffer of texel `(i, j, k)` of layer `layer` of
/// region `r`, counted from the region's image offset.
pub open spec fn region_byte(r: BufferImageCopy, img: ImageInfo, layer: int, i: int, j: int, k: int) -> int {
    layer_offset_of(r, img, layer) + k * slice_pitch_of(r, img) + j * row_pitch_of(r, img) + i
        * img.bytes_per_block
}

/// Byte offset in the buffer that copy `c` uses for texel `(i, j, k)` of
/// its copied box.
pub open spec fn copy_byte(c: FootprintCopy, img: ImageInfo, i: int, j: int, k: int) -> int {
    c.footprint_offset + (c.buf_offset.z + k) * (c.row_pitch * c.footprint.height) + (c.buf_offset.y
        + j) * c.row_pitch + (c.buf_offset.x + i) * img.bytes_per_block
}

/// Every texel that copy `c` moves is paired with the buffer bytes that
/// region `r` assigns to the same image texel.
pub open spec fn maps_back(c: FootprintCopy, r: BufferImageCopy, img: ImageInfo, layer: int) -> bool {
    forall|i: int, j: int, k: int|
        0 <= i < c.copy_extent.width && 0 <= j < c.copy_extent.height && 0 <= k
            < c.copy_extent.depth ==> #[trigger] copy_byte(c, img, i, j, k) == region_byte(
            r,
            img,
            layer,
            c.img_offset.x - r.image_offset.x + i,
            c.img_offset.y - r.image_offset.y + j,
            c.img_offset.z - r.image_offset.z + k,
        )
}

/// The inputs on which a buffer byte belongs to one texel, so that a byte
/// offset names a texel: one-texel blocks whose size divides the placement
/// alignment, and a buffer offset on a texel boundary.
pub open spec fn buffer_side_ok(r: BufferImageCopy, img: ImageInfo) -> bool {
    &&& img.block_width == 1
    &&& img.block_height == 1
    &&& (PLACEMENT_ALIGNMENT as int) % (img.bytes_per_block as int) == 0
    &&& (r.buffer_offset as int) % (img.bytes_per_block as int) == 0
}

proof fn lemma_layer_offset_texels(r: BufferImageCopy, img: ImageInfo, layer: int)
    requires
        region_valid(r, img),
        buffer_side_ok(r, img),
        r.layer_start <= layer < r.layer_end,
    ensures
        row_pitch_of(r, img) == buffer_width_of(r) * img.bytes_per_block,
        slice_pitch_of(r, img) == buffer_height_of(r) * row_pitch_of(r, img),
        layer_offset_of(r, img, layer) % (img.bytes_per_block as int) == 0,
        align_down(layer_offset_of(r, img, layer)) % (img.bytes_per_block as int) == 0,
{
    let bpb = img.bytes_per_block as int;
    let bw = buffer_width_of(r);
    let bh = buffer_height_of(r);
    assert(bw / 1 == bw);
    assert(bh / 1 == bh);
    let qo = r.buffer_offset as int / bpb;
    vstd::arithmetic::div_mod::lemma_fundamental_div_mod(r.buffer_offset as int, bpb);
    let lo = layer_offset_of(r, img, layer);
    let ql = qo + layer * bh * r.image_extent.depth * bw;
    assert(lo == ql * bpb) by (nonlinear_arith)
        requires
            lo == r.buffer_offset + layer * (bh * (bw * bpb)) * r.image_extent.depth,
            r.buffer_offset == bpb * qo,
            ql == qo + layer * bh * r.image_extent.depth * bw,
    ;
    vstd::arithmetic::div_mod::lemma_mod_multiples_basic(ql, bpb);
    let qa = lo / 512;
    vstd::arithmetic::div_mod::lemma_fundamental_div_mod(lo, 512);
    let u = 512int / bpb;
    vstd::arithmetic::div_mod::lemma_fundamental_div_mod(512, bpb);
    assert(align_down(lo) == (qa * u) * bpb) by (nonlinear_arith)
        requires
            align_down(lo) == lo - lo % 512,
            lo == 512 * qa + lo % 512,
            512 == bpb * u,
    ;
    vstd::arithmetic::div_mod::lemma_mod_multiples_basic(qa * u, bpb);
}

proof fn lemma_exact_div(x: int, d: int)
    requires
        d > 0,
        x % d == 0,
    ensures
        (x / d) * d == x,
{
    vstd::arithmetic::div_mod::lemma_fundamental_div_mod(x, d);
    assert((x / d) * d == d * (x / d)) by (nonlinear_arith);
}

proof fn lemma_aligned_maps_back(r: BufferImageCopy, img: ImageInfo, layer: int)
    requires
        region_valid(r, img),
        buffer_side_ok(r, img),
        r.layer_start <= layer < r.layer_end,
        !layer_unaligned(r, img, layer),
    ensures
        maps_back(aligned_copy(r, img, layer), r, img, layer),
{
    lemma_layer_offset_texels(r, img, layer);
    lemma_aligned_layer_single_copy(r, img, layer);
    let c = aligned_copy(r, img, layer);
    let rp = row_pitch_of(r, img);
    let fh = aligned_footprint_height(r) as int;
    assert(fh == if r.image_extent.depth > 1 {
        buffer_height_of(r)
    } else {
        r.image_extent.height as int
    });
    assert forall|i: int, j: int, k: int|
        0 <= i < c.copy_extent.width && 0 <= j < c.copy_extent.height && 0 <= k
            < c.copy_extent.depth implies #[trigger] copy_byte(c, img, i, j, k) == region_byte(
        r,
        img,
        layer,
        c.img_offset.x - r.image_offset.x + i,
        c.img_offset.y - r.image_offset.y + j,
        c.img_offset.z - r.image_offset.z + k,
    ) by {
        assert(k * (rp * fh) == k * slice_pitch_of(r, img)) by (nonlinear_arith)
            requires
                k == 0 || buffer_height_of(r) == fh,
                slice_pitch_of(r, img) == buffer_height_of(r) * rp,
        ;
    }
}

proof fn lemma_shifted_slice_maps_back(r: BufferImageCopy, img: ImageInfo, layer: int, zz: int)
    requires
        region_valid(r, img),
        buffer_side_ok(r, img),
        r.layer_start <= layer < r.layer_end,
        0 <= zz < r.image_extent.depth,
    ensures
        forall|n: int|
            0 <= n < shifted_slice_copies(r, img, layer, zz).len() ==> maps_back(
                #[trigger] shifted_slice_copies(r, img, layer, zz)[n],
                r,
                img,
                layer,
            ),
{
    lemma_layer_offset_texels(r, img, layer);
    lemma_shifted_slice_bounds(r, img, layer, zz);
    let s = shifted_slice_copies(r, img, layer, zz);
    let bpb = img.bytes_per_block as int;
    let rp = row_pitch_of(r, img);
    let sp = slice_pitch_of(r, img);
    let lo = layer_offset_of(r, img, layer);
    let bw = buffer_width_of(r);
    let bh = buffer_height_of(r);
    let so = slice_offset_of(r, img, layer, zz);
    let aligned = align_down(so);
    let gap = so - aligned;
    assert(rp <= sp) by (nonlinear_arith)
        requires
            sp == bh * rp,
            sp > 0,
            rp > 0,
    ;
    // The slice starts on a texel boundary, and so does the aligned offset below it.
    lemma_exact_div(lo, bpb);
    let za = zz * bh * bw;
    assert(zz * sp == za * bpb) by (nonlinear_arith)
        requires
            sp == bh * rp,
            rp == bw * bpb,
            za == zz * bh * bw,
    ;
    let q = lo / bpb + za;
    assert(so == q * bpb) by (nonlinear_arith)
        requires
            so == lo + zz * sp,
            lo == (lo / bpb) * bpb,
            zz * sp == za * bpb,
            q == lo / bpb + za,
    ;
    let qa = so / 512;
    vstd::arithmetic::div_mod::lemma_fundamental_div_mod(so, 512);
    let u = 512int / bpb;
    vstd::arithmetic::div_mod::lemma_fundamental_div_mod(512, bpb);
    assert(aligned == (qa * u) * bpb) by (nonlinear_arith)
        requires
            aligned == so - so % 512,
            so == 512 * qa + so % 512,
            512 == bpb * u,
    ;
    assert(gap == (q - qa * u) * bpb) by (nonlinear_arith)
        requires
            gap == so - aligned,
            so == q * bpb,
            aligned == (qa * u) * bpb,
    ;
    // The gap splits into whole rows and a whole number of texels.
    let by = gap / rp;
    let rem = gap % rp;
    vstd::arithmetic::div_mod::lemma_fundamental_div_mod(gap, rp);
    assert(rem % bpb == 0) by {
        let qr = (q - qa * u) - bw * by;
        assert(rem == qr * bpb) by (nonlinear_arith)
            requires
                gap == rp * by + rem,
                gap == (q - qa * u) * bpb,
                rp == bw * bpb,
                qr == (q - qa * u) - bw * by,
        ;
        vstd::arithmetic::div_mod::lemma_mod_multiples_basic(qr, bpb);
    }
    lemma_exact_div(rem, bpb);
    let bx = rem / bpb;
    assert(rp / bpb == bw) by {
        vstd::arithmetic::div_mod::lemma_div_multiples_vanish(bw, bpb);
        assert(bpb * bw == bw * bpb) by (nonlinear_arith);
    }
    assert forall|n: int| 0 <= n < s.len() implies maps_back(#[trigger] s[n], r, img, layer) by {
        let c = s[n];
        assert forall|i: int, j: int, k: int|
            0 <= i < c.copy_extent.width && 0 <= j < c.copy_extent.height && 0 <= k
                < c.copy_extent.depth implies #[trigger] copy_byte(c, img, i, j, k) == region_byte(
            r,
            img,
            layer,
            c.img_offset.x - r.image_offset.x + i,
            c.img_offset.y - r.image_offset.y + j,
            c.img_offset.z - r.image_offset.z + k,
        ) by {
            assert(k == 0);
            assert(c.img_offset.z == r.image_offset.z + zz);
            assert(c.img_offset.y == r.image_offset.y);
            assert(c.buf_offset.z == 0);
            assert(c.footprint_offset == aligned);
            assert(c.row_pitch == rp);
            assert(region_byte(
                r,
                img,
                layer,
                c.img_offset.x - r.image_offset.x + i,
                j,
                zz,
            ) == so + j * rp + (c.img_offset.x - r.image_offset.x + i) * bpb);
            if n == 0 {
                assert(c.img_offset.x == r.image_offset.x);
                assert(c.buf_offset.y == by);
                assert(c.buf_offset.x == bx);
                assert(copy_byte(c, img, i, j, k) == aligned + (by + j) * rp + (bx + i) * bpb);
                assert(aligned + (by + j) * rp + (bx + i) * bpb == so + j * rp + i * bpb)
                    by (nonlinear_arith)
                    requires
                        gap == rp * by + rem,
                        bx * bpb == rem,
                        gap == so - aligned,
                ;
            } else {
                let half = bw - bx;
                assert(c.buf_offset.y == by + 1);
                assert(c.buf_offset.x == 0);
                assert(c.img_offset.x - r.image_offset.x == half);
                assert(copy_byte(c, img, i, j, k) == aligned + (by + 1 + j) * rp + i * bpb);
                assert(aligned + (by + 1 + j) * rp + i * bpb == so + j * rp + (half + i) * bpb)
                    by (nonlinear_arith)
                    requires
                        gap == rp * by + rem,
                        bx * bpb == rem,
                        gap == so - aligned,
                        rp == bw * bpb,
                        half == bw - bx,
                ;
            }
        }
    }
}

proof fn lemma_shifted_slices_maps_back(r: BufferImageCopy, img: ImageInfo, layer: int, slices: int)
    requires
        region_valid(r, img),
        buffer_side_ok(r, img),
        r.layer_start <= layer < r.layer_end,
        0 <= slices <= r.image_extent.depth,
    ensures
        forall|n: int|
            0 <= n < shifted_slices(r, img, layer, slices).len() ==> maps_back(
                #[trigger] shifted_slices(r, img, layer, slices)[n],
                r,
                img,
                layer,
            ),
    decreases slices,
{
    if slices > 0 {
        lemma_shifted_slices_maps_back(r, img, layer, slices - 1);
        lemma_shifted_slice_maps_back(r, img, layer, slices - 1);
        let a = shifted_slices(r, img, layer, slices - 1);
        let b = shifted_slice_copies(r, img, layer, slices - 1);
        assert forall|n: int| 0 <= n < (a + b).len() implies maps_back(
            #[trigger] (a + b)[n],
            r,
            img,
            layer,
        ) by {
            if n < a.len() {
                assert((a + b)[n] == a[n]);
            } else {
                assert((a + b)[n] == b[n - a.len()]);
            }
        }
    }
}

} // verus!

verus! {

proof fn lemma_row_maps_back(r: BufferImageCopy, img: ImageInfo, layer: int, zz: int, yy: int)
    requires
        region_valid(r, img),
        buffer_side_ok(r, img),
        r.layer_start <= layer < r.layer_end,
        0 <= zz < r.image_extent.depth,
        0 <= yy < r.image_extent.height,
    ensures
        forall|n: int|
            0 <= n < row_copies(r, img, layer, zz, yy).len() ==> maps_back(
                #[trigger] row_copies(r, img, layer, zz, yy)[n],
                r,
                img,
                layer,
            ),
{
    lemma_layer_offset_texels(r, img, layer);
    let s = row_copies(r, img, layer, zz, yy);
    let e = r.image_extent;
    let bpb = img.bytes_per_block as int;
    let rp = row_pitch_of(r, img);
    let sp = slice_pitch_of(r, img);
    let lo = layer_offset_of(r, img, layer);
    let bh = buffer_height_of(r);
    let bw = buffer_width_of(r);
    let row_offset = lo + zz * sp + yy * rp;
    let aligned = align_down(row_offset);
    let next = aligned + 512;
    // The row lies inside the buffer range that the region allows.
    assert(zz * sp + yy * rp < e.depth * sp) by (nonlinear_arith)
        requires
            zz < e.depth,
            yy < e.height,
            e.height <= bh,
            sp == bh * rp,
            rp > 0,
            0 <= zz,
            0 <= yy,
    ;
    assert(layer * sp * e.depth + e.depth * sp <= r.layer_end * sp * e.depth) by (nonlinear_arith)
        requires
            layer < r.layer_end,
            sp >= 0,
            0 <= layer,
    ;
    assert(0 <= zz * sp + yy * rp) by (nonlinear_arith)
        requires
            0 <= zz,
            0 <= yy,
            sp >= 0,
            rp >= 0,
    ;
    assert(0 <= layer * sp * e.depth) by (nonlinear_arith)
        requires
            sp >= 0,
            0 <= layer,
    ;
    assert(0 <= aligned <= row_offset);
    assert(next <= u64::MAX);
    // Row starts and placement boundaries fall on texel boundaries.
    lemma_exact_div(lo, bpb);
    let za = zz * bh * bw;
    let ya = yy * bw;
    let q = lo / bpb + za + ya;
    assert(zz * sp == za * bpb) by (nonlinear_arith)
        requires
            sp == bh * rp,
            rp == bw * bpb,
            za == zz * bh * bw,
    ;
    assert(yy * rp == ya * bpb) by (nonlinear_arith)
        requires
            rp == bw * bpb,
            ya == yy * bw,
    ;
    assert(row_offset == q * bpb) by (nonlinear_arith)
        requires
            row_offset == lo + zz * sp + yy * rp,
            lo == (lo / bpb) * bpb,
            zz * sp == za * bpb,
            yy * rp == ya * bpb,
            q == lo / bpb + za + ya,
    ;
    let qa = row_offset / 512;
    vstd::arithmetic::div_mod::lemma_fundamental_div_mod(row_offset, 512);
    let u = 512int / bpb;
    vstd::arithmetic::div_mod::lemma_fundamental_div_mod(512, bpb);
    assert(aligned == (qa * u) * bpb) by (nonlinear_arith)
        requires
            aligned == row_offset - row_offset % 512,
            row_offset == 512 * qa + row_offset % 512,
            512 == bpb * u,
    ;
    let gap = row_offset - aligned;
    assert(gap == (q - qa * u) * bpb) by (nonlinear_arith)
        requires
            gap == row_offset - aligned,
            row_offset == q * bpb,
            aligned == (qa * u) * bpb,
    ;
    vstd::arithmetic::div_mod::lemma_mod_multiples_basic(q - qa * u, bpb);
    lemma_exact_div(gap, bpb);
    let cut_row = next - row_offset;
    assert(cut_row == (qa * u + u - q) * bpb) by (nonlinear_arith)
        requires
            cut_row == next - row_offset,
            next == aligned + 512,
            row_offset == q * bpb,
            aligned == (qa * u) * bpb,
            512 == bpb * u,
    ;
    vstd::arithmetic::div_mod::lemma_mod_multiples_basic(qa * u + u - q, bpb);
    lemma_exact_div(cut_row, bpb);
    assert forall|n: int| 0 <= n < s.len() implies maps_back(#[trigger] s[n], r, img, layer) by {
        let c = s[n];
        assert forall|i: int, j: int, k: int|
            0 <= i < c.copy_extent.width && 0 <= j < c.copy_extent.height && 0 <= k
                < c.copy_extent.depth implies #[trigger] copy_byte(c, img, i, j, k) == region_byte(
            r,
            img,
            layer,
            c.img_offset.x - r.image_offset.x + i,
            c.img_offset.y - r.image_offset.y + j,
            c.img_offset.z - r.image_offset.z + k,
        ) by {
            assert(j == 0 && k == 0);
            assert(c.img_offset.y - r.image_offset.y == yy);
            assert(c.img_offset.z - r.image_offset.z == zz);
            assert(c.buf_offset.y == 0 && c.buf_offset.z == 0);
            let x = c.img_offset.x - r.image_offset.x + i;
            assert(region_byte(r, img, layer, x, yy, zz) == row_offset + x * bpb);
            if n == 0 {
                assert(c.footprint_offset == aligned);
                assert(c.buf_offset.x == gap / bpb);
                assert(copy_byte(c, img, i, j, k) == aligned + (gap / bpb + i) * bpb)
                    by (nonlinear_arith)
                    requires
                        copy_byte(c, img, i, j, k) == c.footprint_offset + (c.buf_offset.z + k) * (
                        c.row_pitch * c.footprint.height) + (c.buf_offset.y + j) * c.row_pitch + (
                        c.buf_offset.x + i) * bpb,
                        c.buf_offset.z == 0,
                        k == 0,
                        c.buf_offset.y == 0,
                        j == 0,
                        c.footprint_offset == aligned,
                        c.buf_offset.x == gap / bpb,
                ;
                assert(aligned + (gap / bpb + i) * bpb == row_offset + i * bpb) by (nonlinear_arith)
                    requires
                        (gap / bpb) * bpb == gap,
                        gap == row_offset - aligned,
                ;
            } else {
                assert(c.footprint_offset == next);
                assert(c.buf_offset.x == 0);
                assert(c.img_offset.x - r.image_offset.x == cut_row / bpb);
                assert(copy_byte(c, img, i, j, k) == next + i * bpb) by (nonlinear_arith)
                    requires
                        copy_byte(c, img, i, j, k) == c.footprint_offset + (c.buf_offset.z + k) * (
                        c.row_pitch * c.footprint.height) + (c.buf_offset.y + j) * c.row_pitch + (
                        c.buf_offset.x + i) * bpb,
                        c.buf_offset.z == 0,
                        k == 0,
                        c.buf_offset.y == 0,
                        j == 0,
                        c.footprint_offset == next,
                        c.buf_offset.x == 0,
                ;
                assert(next + i * bpb == row_offset + (cut_row / bpb + i) * bpb) by (nonlinear_arith)
                    requires
                        (cut_row / bpb) * bpb == cut_row,
                        cut_row == next - row_offset,
                ;
            }
        }
    }
}

} // verus!

verus! {

proof fn lemma_slice_maps_back(r: BufferImageCopy, img: ImageInfo, layer: int, zz: int, rows: int)
    requires
        region_valid(r, img),
        buffer_side_ok(r, img),
        r.layer_start <= layer < r.layer_end,
        0 <= zz < r.image_extent.depth,
        0 <= rows <= r.image_extent.height,
    ensures
        forall|n: int|
            0 <= n < slice_copies(r, img, layer, zz, rows).len() ==> maps_back(
                #[trigger] slice_copies(r, img, layer, zz, rows)[n],
                r,
                img,
                layer,
            ),
    decreases rows,
{
    if rows > 0 {
        lemma_slice_maps_back(r, img, layer, zz, rows - 1);
        lemma_row_maps_back(r, img, layer, zz, rows - 1);
        let a = slice_copies(r, img, layer, zz, rows - 1);
        let b = row_copies(r, img, layer, zz, rows - 1);
        assert forall|n: int| 0 <= n < (a + b).len() implies maps_back(
            #[trigger] (a + b)[n],
            r,
            img,
            layer,
        ) by {
            if n < a.len() {
                assert((a + b)[n] == a[n]);
            } else {
                assert((a + b)[n] == b[n - a.len()]);
            }
        }
    }
}

proof fn lemma_rowwise_maps_back(r: BufferImageCopy, img: ImageInfo, layer: int, slices: int)
    requires
        region_valid(r, img),
        buffer_side_ok(r, img),
        r.layer_start <= layer < r.layer_end,
        0 <= slices <= r.image_extent.depth,
    ensures
        forall|n: int|
            0 <= n < rowwise_copies(r, img, layer, slices).len() ==> maps_back(
                #[trigger] rowwise_copies(r, img, layer, slices)[n],
                r,
                img,
                layer,
            ),
    decreases slices,
{
    if slices > 0 {
        lemma_rowwise_maps_back(r, img, layer, slices - 1);
        lemma_slice_maps_back(r, img, layer, slices - 1, r.image_extent.height as int);
        let a = rowwise_copies(r, img, layer, slices - 1);
        let b = slice_copies(r, img, layer, slices - 1, r.image_extent.height as int);
        assert forall|n: int| 0 <= n < (a + b).len() implies maps_back(
            #[trigger] (a + b)[n],
            r,
            img,
            layer,
        ) by {
            if n < a.len() {
                assert((a + b)[n] == a[n]);
            } else {
                assert((a + b)[n] == b[n - a.len()]);
            }
        }
    }
}

/// Copy coverage on the buffer side: for every layer of a region of a
/// format with one-texel blocks (see `buffer_side_ok`), each texel that a
/// copy of the layer moves is paired with exactly the buffer bytes that the
/// region assigns to that texel, whatever the depth, pitches and offsets.
/// With the image-side coverage of `lemma_layer_copies_cover_image`, the
/// copies of a layer move every texel of the region between the right
/// places exactly once.
pub proof fn lemma_layer_copies_map_back(r: BufferImageCopy, img: ImageInfo, layer: int)
    requires
        region_valid(r, img),
        buffer_side_ok(r, img),
        r.layer_start <= layer < r.layer_end,
    ensures
        forall|n: int|
            0 <= n < layer_copies(r, img, layer).len() ==> maps_back(
                #[trigger] layer_copies(r, img, layer)[n],
                r,
                img,
                layer,
            ),
{
    let pitch_aligned = row_pitch_of(r, img) % (PITCH_ALIGNMENT as int) == 0;
    let offset_aligned = layer_offset_of(r, img, layer) % (PLACEMENT_ALIGNMENT as int) == 0;
    if pitch_aligned && offset_aligned {
        lemma_aligned_maps_back(r, img, layer);
    } else if pitch_aligned {
        lemma_shifted_slices_maps_back(r, img, layer, r.image_extent.depth as int);
    } else {
        lemma_rowwise_maps_back(r, img, layer, r.image_extent.depth as int);
    }
}

} // verus!

verus! {

/// A copy's image-side and footprint-side boxes stay inside 32-bit coordinates.
pub open spec fn copy_boxes_fit(c: FootprintCopy) -> bool {
    &&& 0 <= c.buf_offset.x && 0 <= c.buf_offset.y && 0 <= c.buf_offset.z
    &&& 0 <= c.img_offset.x && 0 <= c.img_offset.y && 0 <= c.img_offset.z
    &&& c.buf_offset.x as u32 + c.copy_extent.width <= u32::MAX
    &&& c.buf_offset.y as u32 + c.copy_extent.height <= u32::MAX
    &&& c.buf_offset.z as u32 + c.copy_extent.depth <= u32::MAX
    &&& c.img_offset.x as u32 + c.copy_extent.width <= u32::MAX
    &&& c.img_offset.y as u32 + c.copy_extent.height <= u32::MAX
    &&& c.img_offset.z as u32 + c.copy_extent.depth <= u32::MAX
}

/// All copies of seq `s` fit.
pub open spec fn all_fit(s: Seq<FootprintCopy>) -> bool {
    forall|k: int| 0 <= k < s.len() ==> copy_boxes_fit(#[trigger] s[k])
}

proof fn lemma_all_fit_append(a: Seq<FootprintCopy>, b: Seq<FootprintCopy>)
    requires
        all_fit(a),
        all_fit(b),
    ensures
        all_fit(a + b),
{
    assert forall|k: int| 0 <= k < (a + b).len() implies copy_boxes_fit(#[trigger] (a + b)[k]) by {
        if k < a.len() {
            assert((a + b)[k] == a[k]);
        } else {
            assert((a + b)[k] == b[k - a.len()]);
        }
    }
}

proof fn lemma_layer_copies_fit(r: BufferImageCopy, img: ImageInfo, layer: int)
    requires
        region_valid(r, img),
        r.layer_start <= layer < r.layer_end,
    ensures
        all_fit(layer_copies(r, img, layer)),
{
    let pitch_aligned = row_pitch_of(r, img) % (PITCH_ALIGNMENT as int) == 0;
    let offset_aligned = layer_offset_of(r, img, layer) % (PLACEMENT_ALIGNMENT as int) == 0;
    if pitch_aligned && offset_aligned {
    } else if pitch_aligned {
        lemma_shifted_slices_fit(r, img, layer, r.image_extent.depth as int);
    } else {
        lemma_rowwise_fit(r, img, layer, r.image_extent.depth as int);
    }
}

proof fn lemma_shifted_slices_fit(r: BufferImageCopy, img: ImageInfo, layer: int, slices: int)
    requires
        region_valid(r, img),
        r.layer_start <= layer < r.layer_end,
        0 <= slices <= r.image_extent.depth,
    ensures
        all_fit(shifted_slices(r, img, layer, slices)),
    decreases slices,
{
    if slices > 0 {
        lemma_shifted_slices_fit(r, img, layer, slices - 1);
        lemma_shifted_slice_bounds(r, img, layer, slices - 1);
        lemma_all_fit_append(
            shifted_slices(r, img, layer, slices - 1),
            shifted_slice_copies(r, img, layer, slices - 1),
        );
    }
}

proof fn lemma_rowwise_fit(r: BufferImageCopy, img: ImageInfo, layer: int, slices: int)
    requires
        region_valid(r, img),
        r.layer_start <= layer < r.layer_end,
        0 <= slices <= r.image_extent.depth,
    ensures
        all_fit(rowwise_copies(r, img, layer, slices)),
    decreases slices,
{
    if slices > 0 {
        lemma_rowwise_fit(r, img, layer, slices - 1);
        lemma_slice_fit(r, img, layer, slices - 1, r.image_extent.height as int);
        lemma_all_fit_append(
            rowwise_copies(r, img, layer, slices - 1),
            slice_copies(r, img, layer, slices - 1, r.image_extent.height as int),
        );
    }
}

proof fn lemma_slice_fit(r: BufferImageCopy, img: ImageInfo, layer: int, zz: int, rows: int)
    requires
        region_valid(r, img),
        r.layer_start <= layer < r.layer_end,
        0 <= zz < r.image_extent.depth,
        0 <= rows <= r.image_extent.height,
    ensures
        all_fit(slice_copies(r, img, layer, zz, rows)),
    decreases rows,
{
    if rows > 0 {
        lemma_slice_fit(r, img, layer, zz, rows - 1);
        let bpb = img.bytes_per_block as int;
        let row_offset = layer_offset_of(r, img, layer) + zz * slice_pitch_of(r, img) + (rows - 1)
            * row_pitch_of(r, img);
        let aligned = align_down(row_offset);
        assert(0 <= (row_offset - aligned) / bpb <= 512) by (nonlinear_arith)
            requires
                0 <= row_offset - aligned < 512,
                bpb >= 1,
        ;
        assert(0 <= (aligned + 512 - row_offset) / bpb <= 512) by (nonlinear_arith)
            requires
                0 < aligned + 512 - row_offset <= 512,
                bpb >= 1,
        ;
        lemma_all_fit_append(
            slice_copies(r, img, layer, zz, rows - 1),
            row_copies(r, img, layer, zz, rows - 1),
        );
    }
}

proof fn lemma_region_copies_fit(r: BufferImageCopy, img: ImageInfo, upto: int)
    requires
        region_valid(r, img),
        r.layer_start <= upto <= r.layer_end,
    ensures
        all_fit(region_copies(r, img, upto)),
    decreases upto - r.layer_start,
{
    if upto > r.layer_start {
        lemma_region_copies_fit(r, img, upto - 1);
        lemma_layer_copies_fit(r, img, upto - 1);
        lemma_all_fit_append(region_copies(r, img, upto - 1), layer_copies(r, img, upto - 1));
    }
}

/// Every copy that splitting a region produces has boxes inside 32-bit coordinates.
pub proof fn lemma_split_copies_fit(r: BufferImageCopy, img: ImageInfo)
    requires
        region_ok(r, img),
    ensures
        all_fit(split_copies(r, img)),
{
    if !region_empty(r) {
        lemma_region_copies_fit(r, img, r.layer_end as int);
    }
}

} // verus!
