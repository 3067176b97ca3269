use vox_writer::codec::{push_decimal, push_i32, push_u32, write_chunk};
use vox_writer::dict::{DICTitem, DICTstring, DICT};
use vox_writer::partition::{floor_div, floor_half, floor_mod};
use vox_writer::{get_id_char, get_id_u8};

#[test]
fn test_get_id_char() {
    assert_eq!(get_id_char('V', 'O', 'X', ' '), 542658390);
}

#[test]
fn test_get_id_u8() {
    assert_eq!(get_id_u8(86, 79, 88, 32), 542658390);
}

#[test]
fn test_dictstring_empty_get_size() {
    let stru = DICTstring::create_empty();
    assert_eq!(stru.get_size(), 4);
}

#[test]
fn test_dictstring_filled_get_size() {
    let stru = DICTstring::create_from_string("toto va au zoo et c'est beau".as_bytes().to_vec());
    assert_eq!(stru.get_size(), 32);
}

#[test]
fn id_u8_and_char_agree_on_tags() {
    assert_eq!(get_id_char('M', 'A', 'I', 'N'), get_id_u8(b'M', b'A', b'I', b'N'));
    assert_eq!(get_id_u8(b'M', b'A', b'I', b'N'), 0x4e49_414d);
    assert_eq!(get_id_u8(255, 0, 0, 255), 0xff00_00ff);
}

#[test]
fn le_fields() {
    let mut out = Vec::new();
    push_u32(&mut out, 0x0403_0201);
    push_i32(&mut out, -1);
    push_i32(&mut out, 150);
    assert_eq!(out, vec![1, 2, 3, 4, 255, 255, 255, 255, 150, 0, 0, 0]);
}

#[test]
fn decimal_text() {
    let mut out = Vec::new();
    push_decimal(&mut out, -205);
    assert_eq!(out, b"-205".to_vec());
    let mut out = Vec::new();
    push_decimal(&mut out, 0);
    assert_eq!(out, b"0".to_vec());
    let mut out = Vec::new();
    push_decimal(&mut out, i64::MIN);
    assert_eq!(out, b"-9223372036854775808".to_vec());
    let mut out = Vec::new();
    push_decimal(&mut out, 1234567890123);
    assert_eq!(out, b"1234567890123".to_vec());
}

#[test]
fn chunk_frame_bytes() {
    let mut out = vec![9u8];
    write_chunk(&mut out, get_id_u8(b'A', b'B', b'C', b'D'), &vec![7, 8, 9]);
    assert_eq!(out, vec![9, b'A', b'B', b'C', b'D', 3, 0, 0, 0, 0, 0, 0, 0, 7, 8, 9]);
}

#[test]
fn empty_dict_string_writes_only_its_length() {
    let s = DICTstring::create_empty();
    let mut out = Vec::new();
    s.write(&mut out);
    assert_eq!(out, vec![0, 0, 0, 0]);
    assert_eq!(out.len(), s.get_size());
}

#[test]
fn dict_size_matches_write() {
    let mut d = DICT::create_empty();
    assert_eq!(d.get_size(), 4);
    d.add(b"_t".to_vec(), b"1 2 3".to_vec());
    d.add(b"_name".to_vec(), Vec::new());
    let mut out = Vec::new();
    d.write(&mut out);
    assert_eq!(d.get_size(), 4 + (4 + 2 + 4 + 5) + (4 + 5 + 4));
    assert_eq!(out.len(), d.get_size());
    assert_eq!(&out[0..4], &[2, 0, 0, 0]);
    assert_eq!(&out[4..10], &[2, 0, 0, 0, b'_', b't']);
    assert_eq!(&out[10..19], &[5, 0, 0, 0, b'1', b' ', b'2', b' ', b'3']);
}

#[test]
fn dict_item_size_matches_write() {
    let item = DICTitem::create_from_key_value(b"k".to_vec(), b"vv".to_vec());
    let mut out = Vec::new();
    item.write(&mut out);
    assert_eq!(out, vec![1, 0, 0, 0, b'k', 2, 0, 0, 0, b'v', b'v']);
    assert_eq!(item.get_size(), 11);
    let empty = DICTitem::create_empty();
    assert_eq!(empty.get_size(), 8);
}

#[test]
fn floor_partition_of_negative_coordinates() {
    assert_eq!(floor_div(-1, 126), -1);
    assert_eq!(floor_mod(-1, 126), 125);
    assert_eq!(floor_div(-126, 126), -1);
    assert_eq!(floor_mod(-126, 126), 0);
    assert_eq!(floor_div(-127, 126), -2);
    assert_eq!(floor_mod(-127, 126), 125);
    assert_eq!(floor_div(200, 126), 1);
    assert_eq!(floor_mod(200, 126), 74);
    assert_eq!(floor_div(i32::MIN, 126), -17043522);
    assert_eq!(floor_mod(i32::MIN, 126), 124);
    assert_eq!(floor_div(i32::MAX, 1), i32::MAX);
    assert_eq!(floor_mod(i32::MAX, 1), 0);
}

#[test]
fn floor_half_rounds_down() {
    assert_eq!(floor_half(7), 3);
    assert_eq!(floor_half(-7), -4);
    assert_eq!(floor_half(-8), -4);
    assert_eq!(floor_half(0), 0);
}
