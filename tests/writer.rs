use vox_writer::{get_id_u8, Table, VoxWriter};

fn field(b: &[u8], at: usize) -> u32 {
    u32::from_le_bytes([b[at], b[at + 1], b[at + 2], b[at + 3]])
}

/// The chunks inside the main chunk: tag and content.
fn main_chunks(file: &[u8]) -> Vec<([u8; 4], Vec<u8>)> {
    let mut r = Vec::new();
    let mut at = 20;
    while at < file.len() {
        let tag = [file[at], file[at + 1], file[at + 2], file[at + 3]];
        let len = field(file, at + 4) as usize;
        assert_eq!(field(file, at + 8), 0);
        r.push((tag, file[at + 12..at + 12 + len].to_vec()));
        at += 12 + len;
    }
    assert_eq!(at, file.len());
    r
}

fn tags(chunks: &[([u8; 4], Vec<u8>)]) -> Vec<String> {
    chunks.iter().map(|c| String::from_utf8(c.0.to_vec()).unwrap()).collect()
}

fn translation_text(ntrn: &[u8]) -> String {
    // node id, empty attributes, child, reserved, layer, frame count, entry count
    let key_len = field(ntrn, 28) as usize;
    let at = 32 + key_len;
    let len = field(ntrn, at) as usize;
    String::from_utf8(ntrn[at + 4..at + 4 + len].to_vec()).unwrap()
}

#[test]
fn round_trip_two_cubes_and_palette() {
    let mut vox = VoxWriter::create_empty();
    vox.add_voxel(0, 0, 0, 1);
    vox.add_voxel(200, 0, 0, 5);
    vox.add_color(255, 0, 0, 255, 1);
    assert_eq!(vox.count_cubes(), 2);
    let file = vox.encode();
    assert_eq!(&file[0..4], b"VOX ");
    assert_eq!(field(&file, 4), 150);
    assert_eq!(&file[8..12], b"MAIN");
    assert_eq!(field(&file, 12) as usize, file.len() - 20);
    assert_eq!(field(&file, 16), 0);
    let chunks = main_chunks(&file);
    assert_eq!(
        tags(&chunks),
        vec!["SIZE", "XYZI", "SIZE", "XYZI", "nTRN", "nGRP", "nTRN", "nSHP", "nTRN", "nSHP", "RGBA"]
    );
    let rgba = &chunks[10].1;
    assert_eq!(rgba.len(), 1024);
    assert_eq!(field(rgba, 4), 0xff00_00ff);
    assert_eq!(&rgba[4..8], &[255, 0, 0, 255]);
    assert_eq!(field(rgba, 0), 0);
    assert_eq!(chunks[1].1, vec![1, 0, 0, 0, 0, 0, 0, 1]);
    assert_eq!(chunks[3].1, vec![1, 0, 0, 0, 74, 0, 0, 5]);
    assert_eq!(field(&chunks[0].1, 0), 127);
}

#[test]
fn scene_graph_ids_and_translations() {
    let mut vox = VoxWriter::create_empty();
    vox.add_voxel(0, 0, 0, 1);
    vox.add_voxel(200, 0, 0, 5);
    let chunks = main_chunks(&vox.encode());
    // root transform: id 0, child 1, reserved -1, layer -1, one empty frame
    let root = &chunks[4].1;
    assert_eq!(field(root, 0), 0);
    assert_eq!(field(root, 8), 1);
    assert_eq!(field(root, 12), u32::MAX);
    assert_eq!(field(root, 16), u32::MAX);
    assert_eq!(field(root, 20), 1);
    assert_eq!(field(root, 24), 0);
    // root group: id 1, children 2 and 4
    let group = &chunks[5].1;
    assert_eq!(field(group, 0), 1);
    assert_eq!(field(group, 8), 2);
    assert_eq!(field(group, 12), 2);
    assert_eq!(field(group, 16), 4);
    // cube transforms and shapes
    let t0 = &chunks[6].1;
    assert_eq!((field(t0, 0), field(t0, 8), field(t0, 16)), (2, 3, 0));
    let s0 = &chunks[7].1;
    assert_eq!((field(s0, 0), field(s0, 8), field(s0, 12)), (3, 1, 0));
    let t1 = &chunks[8].1;
    assert_eq!((field(t1, 0), field(t1, 8)), (4, 5));
    let s1 = &chunks[9].1;
    assert_eq!((field(s1, 0), field(s1, 12)), (5, 1));
    // box x in [0, 200], y and z at 0; cubes at x 0 and 1
    assert_eq!(translation_text(t0), "-37 63 63");
    assert_eq!(translation_text(t1), "89 63 63");
}

#[test]
fn negative_coordinates_are_recentered() {
    let mut vox = VoxWriter::create_empty();
    vox.add_voxel(-1, -1, -1, 3);
    let chunks = main_chunks(&vox.encode());
    assert_eq!(chunks[1].1, vec![1, 0, 0, 0, 125, 125, 125, 3]);
    assert_eq!(translation_text(&chunks[4].1), "64 64 63");
    assert_eq!(chunks.len(), 6);
}

#[test]
fn first_write_wins() {
    let mut vox = VoxWriter::create_empty();
    vox.add_voxel(1, 2, 3, 5);
    vox.add_voxel(1, 2, 3, 9);
    assert_eq!(vox.count_voxels(), 1);
    let chunks = main_chunks(&vox.encode());
    assert_eq!(chunks[1].1, vec![1, 0, 0, 0, 1, 2, 3, 5]);
}

#[test]
fn distinct_count_matches_voxel_bytes() {
    let mut vox = VoxWriter::create(10, 10, 10);
    let mut distinct = std::collections::HashSet::new();
    for i in -30..30 {
        let p = (i * 7 % 23, i % 5, -i);
        vox.add_voxel(p.0, p.1, p.2, i);
        distinct.insert(p);
    }
    vox.add_voxel(0, 0, 0, 1);
    distinct.insert((0, 0, 0));
    let chunks = main_chunks(&vox.encode());
    let mut bytes = 0;
    for c in &chunks {
        if &c.0 == b"XYZI" {
            assert_eq!(field(&c.1, 0) as usize * 4, c.1.len() - 4);
            bytes += c.1.len() - 4;
        }
    }
    assert_eq!(bytes / 4, distinct.len());
    assert_eq!(vox.count_voxels(), distinct.len());
}

#[test]
fn limits_are_clamped() {
    let build = |l: i32| {
        let mut v = VoxWriter::create(l, l, l);
        v.add_voxel(130, -3, 7, 2);
        v.add_voxel(0, 0, 0, 1);
        v.encode()
    };
    assert_eq!(build(500), build(126));
    assert_eq!(build(-5), build(0));
    assert_eq!(build(0), build(1));
    assert_ne!(build(126), build(125));
    let big = main_chunks(&build(500));
    assert_eq!(field(&big[0].1, 0), 127);
    let small = main_chunks(&build(-5));
    assert_eq!(field(&small[0].1, 0), 2);
}

#[test]
fn palette_only_when_set_and_slot_255_zero() {
    let mut vox = VoxWriter::create_empty();
    vox.add_voxel(0, 0, 0, 1);
    let plain = main_chunks(&vox.encode());
    assert_eq!(plain.len(), 6);
    vox.add_color(1, 2, 3, 4, 255);
    vox.add_color(9, 9, 9, 9, 254);
    let with = main_chunks(&vox.encode());
    let rgba = &with[6].1;
    assert_eq!(field(rgba, 254 * 4), get_id_u8(9, 9, 9, 9));
    assert_eq!(field(rgba, 255 * 4), 0);
    assert_eq!(field(rgba, 4), 0);
    vox.clear_colors();
    assert_eq!(main_chunks(&vox.encode()).len(), 6);
}

#[test]
fn clear_voxels_starts_over() {
    let mut vox = VoxWriter::create_empty();
    vox.add_voxel(5, 5, 5, 1);
    vox.add_voxel(500, 5, 5, 1);
    vox.clear_voxels();
    assert_eq!(vox.count_cubes(), 0);
    assert_eq!(vox.count_voxels(), 0);
    vox.add_voxel(5, 5, 5, 7);
    assert_eq!(vox.count_cubes(), 1);
    let chunks = main_chunks(&vox.encode());
    assert_eq!(chunks[1].1, vec![1, 0, 0, 0, 5, 5, 5, 7]);
}

#[test]
fn empty_writer_file() {
    let vox = VoxWriter::create_empty();
    let file = vox.encode();
    let chunks = main_chunks(&file);
    assert_eq!(tags(&chunks), vec!["nTRN", "nGRP"]);
    assert_eq!(field(&file, 12) as usize, file.len() - 20);
}

#[test]
fn volume_size_and_stats() {
    let mut vox = VoxWriter::create_empty();
    vox.add_voxel(-4, 2, 10, 1);
    vox.add_voxel(6, 2, -10, 1);
    let s = vox.volume_size();
    assert_eq!((s.x, s.y, s.z), (10, 0, 20));
    assert_eq!(vox.count_cubes(), 2);
    assert_eq!(vox.count_voxels(), 2);
}

#[test]
fn color_index_low_byte_kept() {
    let mut vox = VoxWriter::create_empty();
    vox.add_voxel(0, 0, 0, 257);
    let chunks = main_chunks(&vox.encode());
    assert_eq!(chunks[1].1[7], 1);
}

#[test]
fn table_get_set() {
    let mut t = Table::new();
    assert_eq!(t.get(1, -2, 3), None);
    t.set(1, -2, 3, 7);
    t.set(i32::MIN, i32::MAX, 0, 8);
    assert_eq!(t.get(1, -2, 3), Some(7));
    assert_eq!(t.get(i32::MIN, i32::MAX, 0), Some(8));
    assert_eq!(t.get(-2, 1, 3), None);
    t.set(1, -2, 3, 9);
    assert_eq!(t.get(1, -2, 3), Some(9));
    assert_eq!(t.len(), 2);
}
