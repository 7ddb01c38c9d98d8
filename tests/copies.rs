use dx12_command::command::{Buffer, BufferCopy, CommandBuffer, ImageCopy, ImageResolve};
use dx12_command::copy::{split_buffer_copy, BufferImageCopy, Extent, FootprintCopy, ImageInfo, Offset};
use dx12_command::native::{CopyLocation, NativeBox, NativeCommand};

fn image(bytes_per_block: u32) -> ImageInfo {
    ImageInfo {
        resource: 77,
        block_width: 1,
        block_height: 1,
        bytes_per_block,
        levels: 4,
        layers: 6,
        format: 28,
        clear_color_view: Some(5),
        clear_depth_view: Some(6),
        clear_stencil_view: Some(7),
    }
}

fn region(buffer_offset: u64, width: u32, height: u32, depth: u32) -> BufferImageCopy {
    BufferImageCopy {
        buffer_offset,
        buffer_width: 0,
        buffer_height: 0,
        level: 0,
        layer_start: 0,
        layer_end: 1,
        image_offset: Offset { x: 0, y: 0, z: 0 },
        image_extent: Extent { width, height, depth },
    }
}

fn split(r: &BufferImageCopy, img: &ImageInfo) -> Vec<FootprintCopy> {
    let mut copies = Vec::new();
    split_buffer_copy(&mut copies, r, img);
    copies
}

/// Image texels covered by the copies, each as (subresource, x, y, z).
fn covered(copies: &[FootprintCopy]) -> Vec<(u32, i32, i32, i32)> {
    let mut out = Vec::new();
    for c in copies {
        for z in 0..c.copy_extent.depth as i32 {
            for y in 0..c.copy_extent.height as i32 {
                for x in 0..c.copy_extent.width as i32 {
                    out.push((c.img_subresource, c.img_offset.x + x, c.img_offset.y + y, c.img_offset.z + z));
                }
            }
        }
    }
    out.sort();
    out
}

fn region_texels(r: &BufferImageCopy, img: &ImageInfo) -> Vec<(u32, i32, i32, i32)> {
    let mut out = Vec::new();
    for layer in r.layer_start..r.layer_end {
        let sub = img.calc_subresource(r.level, layer);
        for z in 0..r.image_extent.depth as i32 {
            for y in 0..r.image_extent.height as i32 {
                for x in 0..r.image_extent.width as i32 {
                    out.push((sub, r.image_offset.x + x, r.image_offset.y + y, r.image_offset.z + z));
                }
            }
        }
    }
    out.sort();
    out
}

#[test]
fn aligned_64_by_64_copy_is_one_copy() {
    let img = image(4);
    let copies = split(&region(0, 64, 64, 1), &img);
    assert_eq!(copies.len(), 1);
    let c = copies[0];
    assert_eq!(c.footprint_offset, 0);
    assert_eq!(c.copy_extent, Extent { width: 64, height: 64, depth: 1 });
    assert_eq!(c.buf_offset, Offset { x: 0, y: 0, z: 0 });
    assert_eq!(c.row_pitch, 256);
}

#[test]
fn aligned_region_is_copied_unchanged() {
    let img = image(4);
    let mut r = region(1024, 64, 8, 2);
    r.image_offset = Offset { x: 3, y: 4, z: 5 };
    r.level = 1;
    let copies = split(&r, &img);
    assert_eq!(
        copies,
        vec![FootprintCopy {
            footprint_offset: 1024,
            footprint: r.image_extent,
            row_pitch: 256,
            img_subresource: 1,
            img_offset: r.image_offset,
            buf_offset: Offset { x: 0, y: 0, z: 0 },
            copy_extent: r.image_extent,
        }]
    );
}

#[test]
fn unaligned_offset_with_aligned_pitch_splits_the_row() {
    let img = image(4);
    let copies = split(&region(4, 64, 2, 1), &img);
    assert_eq!(copies.len(), 2);
    assert_eq!(copies[0].footprint_offset, 0);
    assert_eq!(copies[0].buf_offset, Offset { x: 1, y: 0, z: 0 });
    assert_eq!(copies[0].copy_extent, Extent { width: 63, height: 2, depth: 1 });
    assert_eq!(copies[1].img_offset, Offset { x: 63, y: 0, z: 0 });
    assert_eq!(copies[1].buf_offset, Offset { x: 0, y: 1, z: 0 });
    assert_eq!(copies[1].copy_extent, Extent { width: 1, height: 2, depth: 1 });
    assert_eq!(copies[1].footprint, Extent { width: 1, height: 3, depth: 1 });
}

#[test]
fn unaligned_offset_that_fits_shifts_the_footprint() {
    let img = image(4);
    let mut r = region(8, 32, 2, 1);
    r.buffer_width = 64;
    let copies = split(&r, &img);
    assert_eq!(copies.len(), 1);
    assert_eq!(copies[0].footprint_offset, 0);
    assert_eq!(copies[0].buf_offset, Offset { x: 2, y: 0, z: 0 });
    assert_eq!(copies[0].footprint, Extent { width: 34, height: 2, depth: 1 });
    assert_eq!(copies[0].copy_extent, Extent { width: 32, height: 2, depth: 1 });
}

#[test]
fn unaligned_pitch_copies_row_by_row() {
    let img = image(4);
    let copies = split(&region(0, 10, 2, 1), &img);
    assert_eq!(copies.len(), 2);
    assert_eq!(copies[0].row_pitch, 256);
    assert_eq!(copies[0].copy_extent, Extent { width: 10, height: 1, depth: 1 });
    assert_eq!(copies[1].buf_offset, Offset { x: 10, y: 0, z: 0 });
    assert_eq!(copies[1].img_offset, Offset { x: 0, y: 1, z: 0 });
}

#[test]
fn row_crossing_a_placement_boundary_is_cut_there() {
    let img = image(4);
    let copies = split(&region(500, 10, 1, 1), &img);
    assert_eq!(copies.len(), 2);
    assert_eq!(copies[0].footprint_offset, 0);
    assert_eq!(copies[0].buf_offset.x, 125);
    assert_eq!(copies[0].copy_extent.width, 3);
    assert_eq!(copies[1].footprint_offset, 512);
    assert_eq!(copies[1].img_offset.x, 3);
    assert_eq!(copies[1].copy_extent.width, 7);
}

#[test]
fn copies_cover_each_texel_once() {
    let img = image(4);
    let cases = [
        region(0, 64, 64, 1),
        region(4, 64, 2, 1),
        region(8, 32, 3, 2),
        region(500, 10, 3, 2),
        region(12, 7, 5, 3),
    ];
    for r in cases.iter() {
        let mut r = *r;
        r.layer_start = 1;
        r.layer_end = 3;
        r.image_offset = Offset { x: 2, y: 1, z: 0 };
        let copies = split(&r, &img);
        assert_eq!(covered(&copies), region_texels(&r, &img));
    }
}

#[test]
fn buffer_to_image_records_one_copy_per_footprint() {
    let img = image(4);
    let buffer = Buffer { resource: 9, gpu_address: 0, size_in_bytes: 1 << 20, clear_uav: None };
    let mut cb = CommandBuffer::new();
    cb.copy_buffer_to_image(&buffer, &img, &[region(0, 64, 64, 1)]);
    assert_eq!(
        cb.as_raw_list(),
        &vec![NativeCommand::CopyTextureRegion {
            dst: CopyLocation::Subresource { resource: 77, index: 0 },
            dst_x: 0,
            dst_y: 0,
            dst_z: 0,
            src: CopyLocation::Footprint {
                resource: 9,
                offset: 0,
                format: 28,
                width: 64,
                height: 64,
                depth: 1,
                row_pitch: 256
            },
            src_box: NativeBox { left: 0, top: 0, front: 0, right: 64, bottom: 64, back: 1 },
        }]
    );
    assert!(cb.copies.is_empty());
}

#[test]
fn image_to_buffer_swaps_the_sides() {
    let img = image(4);
    let buffer = Buffer { resource: 9, gpu_address: 0, size_in_bytes: 1 << 20, clear_uav: None };
    let mut cb = CommandBuffer::new();
    cb.copy_image_to_buffer(&img, &buffer, &[region(4, 64, 2, 1)]);
    let list = cb.as_raw_list();
    assert_eq!(list.len(), 2);
    match &list[0] {
        NativeCommand::CopyTextureRegion { dst, dst_x, src, src_box, .. } => {
            assert!(matches!(dst, CopyLocation::Footprint { resource: 9, offset: 0, .. }));
            assert_eq!(*dst_x, 1);
            assert_eq!(*src, CopyLocation::Subresource { resource: 77, index: 0 });
            assert_eq!(*src_box, NativeBox { left: 0, top: 0, front: 0, right: 63, bottom: 2, back: 1 });
        }
        other => panic!("unexpected {:?}", other),
    }
    assert!(cb.copies.is_empty());
}

#[test]
fn copy_image_copies_each_layer() {
    let src = image(4);
    let mut dst = image(4);
    dst.resource = 78;
    let mut cb = CommandBuffer::new();
    let r = ImageCopy {
        src_level: 1,
        src_layer_start: 0,
        dst_level: 2,
        dst_layer_start: 3,
        num_layers: 2,
        src_offset: Offset { x: 1, y: 2, z: 0 },
        dst_offset: Offset { x: 4, y: 5, z: 0 },
        extent: Extent { width: 8, height: 8, depth: 1 },
    };
    cb.copy_image(&src, &dst, &[r]);
    let list = cb.as_raw_list();
    assert_eq!(list.len(), 2);
    assert_eq!(
        list[1],
        NativeCommand::CopyTextureRegion {
            dst: CopyLocation::Subresource { resource: 78, index: 2 + 4 * 4 },
            dst_x: 4,
            dst_y: 5,
            dst_z: 0,
            src: CopyLocation::Subresource { resource: 77, index: 1 + 4 },
            src_box: NativeBox { left: 1, top: 2, front: 0, right: 9, bottom: 10, back: 1 },
        }
    );
}

#[test]
fn copy_buffer_copies_each_region() {
    let a = Buffer { resource: 1, gpu_address: 0, size_in_bytes: 100, clear_uav: None };
    let b = Buffer { resource: 2, gpu_address: 0, size_in_bytes: 100, clear_uav: None };
    let mut cb = CommandBuffer::new();
    cb.copy_buffer(&a, &b, &[BufferCopy { src: 0, dst: 10, size: 5 }, BufferCopy { src: 20, dst: 0, size: 1 }]);
    assert_eq!(
        cb.as_raw_list(),
        &vec![
            NativeCommand::CopyBufferRegion { dst: 2, dst_offset: 10, src: 1, src_offset: 0, size: 5 },
            NativeCommand::CopyBufferRegion { dst: 2, dst_offset: 0, src: 1, src_offset: 20, size: 1 },
        ]
    );
}

#[test]
fn resolve_transitions_around_the_resolves() {
    let src = image(4);
    let mut dst = image(4);
    dst.resource = 78;
    let mut cb = CommandBuffer::new();
    cb.resolve_image(
        &src,
        &dst,
        &[ImageResolve {
            src_level: 0,
            src_layer_start: 1,
            dst_level: 0,
            dst_layer_start: 0,
            extent: Extent { width: 4, height: 4, depth: 2 },
        }],
    );
    let list = cb.as_raw_list();
    assert_eq!(list.len(), 4);
    assert_eq!(
        list[1],
        NativeCommand::ResolveSubresource { src: 77, src_subresource: 4, dst: 78, dst_subresource: 0, format: 28 }
    );
    assert_eq!(
        list[2],
        NativeCommand::ResolveSubresource { src: 77, src_subresource: 8, dst: 78, dst_subresource: 4, format: 28 }
    );
}

fn region_byte(r: &BufferImageCopy, img: &ImageInfo, layer: u32, x: i64, y: i64, z: i64) -> i64 {
    let bpb = img.bytes_per_block as i64;
    let width = if r.buffer_width == 0 { r.image_extent.width } else { r.buffer_width } as i64;
    let height = if r.buffer_height == 0 { r.image_extent.height } else { r.buffer_height } as i64;
    let row = width * bpb;
    let slice = height * row;
    r.buffer_offset as i64 + layer as i64 * slice * r.image_extent.depth as i64 + z * slice + y * row + x * bpb
}

fn copy_byte(c: &FootprintCopy, img: &ImageInfo, i: i64, j: i64, k: i64) -> i64 {
    let bpb = img.bytes_per_block as i64;
    let pitch = c.row_pitch as i64;
    c.footprint_offset as i64
        + (c.buf_offset.z as i64 + k) * pitch * c.footprint.height as i64
        + (c.buf_offset.y as i64 + j) * pitch
        + (c.buf_offset.x as i64 + i) * bpb
}

#[test]
fn copies_use_the_bytes_the_region_assigns() {
    let img = image(4);
    let mut tall = region(0, 64, 8, 2);
    tall.buffer_height = 16;
    let mut shifted_tall = region(4, 64, 2, 3);
    shifted_tall.buffer_height = 5;
    let cases = [
        region(0, 64, 64, 1),
        region(4, 64, 2, 1),
        region(8, 32, 3, 2),
        region(500, 10, 3, 2),
        tall,
        shifted_tall,
        region(4, 64, 1, 3),
        region(260, 70, 2, 2),
    ];
    for r in cases.iter() {
        let mut r = *r;
        r.layer_start = 1;
        r.layer_end = 3;
        for layer in r.layer_start..r.layer_end {
            let mut one = r;
            one.layer_start = layer;
            one.layer_end = layer + 1;
            for c in split(&one, &img).iter() {
                for k in 0..c.copy_extent.depth as i64 {
                    for j in 0..c.copy_extent.height as i64 {
                        for i in 0..c.copy_extent.width as i64 {
                            let x = (c.img_offset.x - r.image_offset.x) as i64 + i;
                            let y = (c.img_offset.y - r.image_offset.y) as i64 + j;
                            let z = (c.img_offset.z - r.image_offset.z) as i64 + k;
                            assert_eq!(copy_byte(c, &img, i, j, k), region_byte(&r, &img, layer, x, y, z));
                        }
                    }
                }
            }
        }
    }
}

#[test]
fn multi_slice_aligned_footprint_spans_buffer_slices() {
    let img = image(4);
    let mut r = region(0, 64, 8, 2);
    r.buffer_height = 16;
    let copies = split(&r, &img);
    assert_eq!(copies.len(), 1);
    assert_eq!(copies[0].footprint, Extent { width: 64, height: 16, depth: 2 });
    assert_eq!(copies[0].copy_extent, Extent { width: 64, height: 8, depth: 2 });
}

#[test]
fn shifted_layers_are_copied_slice_by_slice() {
    let img = image(4);
    let copies = split(&region(4, 64, 1, 3), &img);
    assert_eq!(copies.len(), 6);
    assert!(copies.iter().all(|c| c.copy_extent.depth == 1 && c.footprint.depth == 1));
    assert_eq!(copies[2].img_offset, Offset { x: 0, y: 0, z: 1 });
    assert_eq!(copies[2].footprint_offset, 0);
    assert_eq!(copies[2].buf_offset, Offset { x: 1, y: 1, z: 0 });
}

#[test]
fn empty_region_gives_no_copy() {
    let img = image(4);
    assert!(split(&region(4, 0, 3, 1), &img).is_empty());
    let mut cb = CommandBuffer::new();
    let buffer = Buffer { resource: 9, gpu_address: 0, size_in_bytes: 64, clear_uav: None };
    cb.copy_buffer_to_image(&buffer, &img, &[region(0, 8, 8, 0)]);
    assert!(cb.as_raw_list().is_empty());
}
