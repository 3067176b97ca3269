use vox_writer::{Model, Ngrp, Nshp, Ntrn, Size, VoxCube, LAYR, RGBA, XYZI, DICT};
use vox_writer::{AABBCC, Point3};

fn field(b: &[u8], at: usize) -> u32 {
    u32::from_le_bytes([b[at], b[at + 1], b[at + 2], b[at + 3]])
}

#[test]
fn ntrn_size_matches_write() {
    let mut n = Ntrn::create(1);
    n.node_id = 2;
    n.child_node_id = 3;
    n.layer_id = 0;
    n.frames[0].add(b"_t".to_vec(), b"63 63 63".to_vec());
    let size = n.get_size();
    let mut out = Vec::new();
    n.write(&mut out);
    assert_eq!(&out[0..4], b"nTRN");
    assert_eq!(out.len(), 12 + size);
    assert_eq!(field(&out, 4) as usize, size);
    assert_eq!(field(&out, 8), 0);
    assert_eq!(size, 20 + 4 + 4 + (4 + 2 + 4 + 8));
    assert_eq!(field(&out, 12), 2);
    assert_eq!(field(&out, 20), 3);
    assert_eq!(field(&out, 24), u32::MAX);
    assert_eq!(field(&out, 28), 0);
    assert_eq!(field(&out, 32), 1);
}

#[test]
fn ntrn_create_defaults() {
    let n = Ntrn::create(3);
    assert_eq!(n.frames.len(), 3);
    assert_eq!(n.reserved_id, -1);
    assert_eq!(n.layer_id, -1);
    assert_eq!(n.get_size(), 20 + 4 + 3 * 4);
}

#[test]
fn ngrp_size_matches_write() {
    let mut g = Ngrp::create(2);
    g.node_id = 1;
    g.child_nodes[0] = 2;
    g.child_nodes[1] = 4;
    let size = g.get_size();
    let mut out = Vec::new();
    g.write(&mut out);
    assert_eq!(&out[0..4], b"nGRP");
    assert_eq!(size, 4 * (2 + 2) + 4);
    assert_eq!(out.len(), 12 + size);
    assert_eq!(field(&out, 4) as usize, size);
    assert_eq!(field(&out, 12), 1);
    assert_eq!(field(&out, 20), 2);
    assert_eq!(field(&out, 24), 2);
    assert_eq!(field(&out, 28), 4);
}

#[test]
fn nshp_size_matches_write() {
    let mut s = Nshp::create(1);
    s.node_id = 3;
    s.models[0].model_id = 7;
    let size = s.get_size();
    let mut out = Vec::new();
    s.write(&mut out);
    assert_eq!(&out[0..4], b"nSHP");
    assert_eq!(size, 8 + 4 + 8);
    assert_eq!(out.len(), 12 + size);
    assert_eq!(field(&out, 4) as usize, size);
    assert_eq!(field(&out, 12), 3);
    assert_eq!(field(&out, 20), 1);
    assert_eq!(field(&out, 24), 7);
}

#[test]
fn model_size_matches_write() {
    let m = Model::create_empty();
    let mut out = Vec::new();
    m.write(&mut out);
    assert_eq!(out, vec![0; 8]);
    assert_eq!(m.get_size(), 8);
}

#[test]
fn layr_size_matches_write() {
    let mut l = LAYR::create_empty();
    l.node_id = 5;
    l.reserved_id = -1;
    let size = l.get_size();
    let mut out = Vec::new();
    l.write(&mut out);
    assert_eq!(&out[0..4], b"LAYR");
    assert_eq!(size, 12);
    assert_eq!(out.len(), 12 + size);
    assert_eq!(field(&out, 12), 5);
    assert_eq!(field(&out, 20), u32::MAX);
}

#[test]
fn size_chunk_bytes() {
    let mut s = Size::create_empty();
    s.size_x = 127;
    s.size_y = 2;
    s.size_z = 3;
    let mut out = Vec::new();
    s.write(&mut out);
    assert_eq!(s.get_size(), 12);
    assert_eq!(out.len(), 24);
    assert_eq!(&out[0..4], b"SIZE");
    assert_eq!(field(&out, 4), 12);
    assert_eq!(field(&out, 12), 127);
    assert_eq!(field(&out, 16), 2);
    assert_eq!(field(&out, 20), 3);
}

#[test]
fn xyzi_chunk_bytes() {
    let mut x = XYZI::create_empty();
    assert_eq!(x.get_num_voxels(), 0);
    assert_eq!(x.get_size(), 4);
    x.voxels.extend_from_slice(&[1, 2, 3, 4, 5, 6, 7, 8]);
    assert_eq!(x.get_num_voxels(), 2);
    let size = x.get_size();
    let mut out = Vec::new();
    x.write(&mut out);
    assert_eq!(size, 12);
    assert_eq!(&out[0..4], b"XYZI");
    assert_eq!(out.len(), 12 + size);
    assert_eq!(field(&out, 4) as usize, size);
    assert_eq!(field(&out, 12), 2);
    assert_eq!(&out[16..24], &[1, 2, 3, 4, 5, 6, 7, 8]);
}

#[test]
fn rgba_chunk_bytes() {
    let mut p = RGBA::create_empty();
    p.set(1, 0xff00_00ff);
    let size = p.get_size();
    let mut out = Vec::new();
    p.write(&mut out);
    assert_eq!(size, 1024);
    assert_eq!(&out[0..4], b"RGBA");
    assert_eq!(out.len(), 12 + 1024);
    assert_eq!(field(&out, 4), 1024);
    assert_eq!(&out[16..20], &[255, 0, 0, 255]);
    assert_eq!(field(&out, 12), 0);
}

#[test]
fn dict_chunk_parts_default_empty() {
    let d = DICT::create_empty();
    let mut out = Vec::new();
    d.write(&mut out);
    assert_eq!(out, vec![0, 0, 0, 0]);
}

#[test]
fn vox_cube_basics() {
    let mut c = VoxCube::create_empty();
    assert!(c.is_empty());
    c.add_coord(1);
    c.add_coord(2);
    c.add_coord(3);
    c.add_coord(4);
    assert_eq!(c.xyzi.get_num_voxels(), 1);
    c.cube_id = 2;
    assert!(!c.is_empty());
    let mut out = Vec::new();
    c.write(&mut out);
    assert_eq!(out.len(), 24 + 12 + 4 + 4);
    assert_eq!(&out[0..4], b"SIZE");
    assert_eq!(&out[24..28], b"XYZI");
    assert_eq!(&out[40..44], &[1, 2, 3, 4]);
}

#[test]
fn point_and_box() {
    let p = Point3::create1(4i32);
    assert_eq!((p.x, p.y, p.z), (4, 4, 4));
    let q = Point3::create3(1u8, 2u8, 3u8);
    assert_eq!((q.x, q.y, q.z), (1, 2, 3));
    let mut b = AABBCC::create_empty();
    b.combine(Point3::create3(3, -2, 7));
    b.combine(Point3::create3(-1, 5, 7));
    assert_eq!((b.lower_bound.x, b.lower_bound.y, b.lower_bound.z), (-1, -2, 7));
    assert_eq!((b.upper_bound.x, b.upper_bound.y, b.upper_bound.z), (3, 5, 7));
    let s = b.size();
    assert_eq!((s.x, s.y, s.z), (4, 7, 0));
    let c = AABBCC::create(0, 10);
    assert_eq!(c.size().z, 10);
}
