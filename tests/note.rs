use noted::name::{c_str_bytes, encode_name, name_fits};
use noted::Note;
use noted::order::ByteOrder;
use noted::wire::{parse_note, Descriptor};

fn expected_native() -> ByteOrder {
    if u32::from_ne_bytes([1, 0, 0, 0]) == 1 {
        ByteOrder::Little
    } else {
        ByteOrder::Big
    }
}

#[test]
fn byte_array_descriptor_note() {
    let n: Note<[u8; 4], 9> = Note::new("xxxxxxxx", 1, [1, 2, 3, 4]);
    assert_eq!(n.name_size(), 9);
    assert_eq!(n.desc_size(), 4);
    assert_eq!(n.type_tag(), 1);
    assert_eq!(n.name(), b"xxxxxxxx\0");
    assert_eq!(n.desc(), &[1u8, 2, 3, 4]);
}

#[test]
fn u64_descriptor_note() {
    let n: Note<u64, 6> = Note::new("yyyyy", 2, 7u64);
    assert_eq!(n.name_size(), 6);
    assert_eq!(n.desc_size(), 8);
    assert_eq!(n.type_tag(), 2);
    assert_eq!(n.name(), b"yyyyy\0");
    assert_eq!(*n.desc(), 7u64);

    let bytes = n.to_bytes(ByteOrder::native());
    let mut want: Vec<u8> = Vec::new();
    want.extend_from_slice(&6u32.to_ne_bytes());
    want.extend_from_slice(&8u32.to_ne_bytes());
    want.extend_from_slice(&2u32.to_ne_bytes());
    want.extend_from_slice(b"yyyyy\0\0\0");
    want.extend_from_slice(&7u64.to_ne_bytes());
    assert_eq!(bytes, want);
}

#[test]
fn native_order_is_machine_order() {
    assert_eq!(ByteOrder::native(), expected_native());
}

#[test]
fn short_name_is_zero_padded() {
    let buf: [u8; 8] = encode_name("abc");
    assert_eq!(&buf, b"abc\0\0\0\0\0");
    assert_eq!(c_str_bytes(&buf), b"abc".to_vec());
    assert!(name_fits("abc", 8));
    assert!(name_fits("abc", 4));
}

#[test]
fn long_name_is_cut_short() {
    let buf: [u8; 4] = encode_name("abcdef");
    assert_eq!(&buf, b"abc\0");
    assert!(!name_fits("abcdef", 4));
    assert_eq!(c_str_bytes(&buf), b"abc".to_vec());
}

#[test]
fn name_exactly_capacity_loses_last_byte() {
    let buf: [u8; 3] = encode_name("abc");
    assert_eq!(&buf, b"ab\0");
    assert!(!name_fits("abc", 3));
}

#[test]
fn empty_name_and_field() {
    let buf: [u8; 0] = encode_name("abc");
    assert_eq!(buf.len(), 0);
    let buf: [u8; 1] = encode_name("");
    assert_eq!(&buf, b"\0");
    let buf: [u8; 4] = encode_name("");
    assert_eq!(&buf, b"\0\0\0\0");
}

#[test]
fn c_str_without_zero_is_whole_buffer() {
    assert_eq!(c_str_bytes(b"abcd"), b"abcd".to_vec());
    assert_eq!(c_str_bytes(b""), Vec::<u8>::new());
    assert_eq!(c_str_bytes(b"\0ab"), Vec::<u8>::new());
}

#[test]
fn name_size_is_capacity_not_name_length() {
    let n: Note<u8, 16> = Note::new("ab", 5, 9u8);
    assert_eq!(n.name_size(), 16);
    assert_eq!(n.desc_size(), 1);
    assert_eq!(n.name(), b"ab\0\0\0\0\0\0\0\0\0\0\0\0\0\0");
}

#[test]
fn desc_size_is_size_of_descriptor() {
    let a: Note<u16, 4> = Note::new("abc", 0, 0x1234u16);
    assert_eq!(a.desc_size() as usize, std::mem::size_of::<u16>());
    assert_eq!(*a.desc(), 0x1234u16);
    let b: Note<(u8, u32), 4> = Note::new("abc", 0, (1u8, 2u32));
    assert_eq!(b.desc_size() as usize, std::mem::size_of::<(u8, u32)>());
    assert_eq!(*b.desc(), (1u8, 2u32));
}

#[test]
fn descriptor_bytes_in_each_order() {
    assert_eq!(0x0102u16.desc_bytes(ByteOrder::Little), vec![2, 1]);
    assert_eq!(0x0102u16.desc_bytes(ByteOrder::Big), vec![1, 2]);
    assert_eq!(0x01020304u32.desc_bytes(ByteOrder::Little), vec![4, 3, 2, 1]);
    assert_eq!(0x01020304u32.desc_bytes(ByteOrder::Big), vec![1, 2, 3, 4]);
    assert_eq!(0x0102030405060708u64.desc_bytes(ByteOrder::Little), vec![8, 7, 6, 5, 4, 3, 2, 1]);
    assert_eq!(0x0102030405060708u64.desc_bytes(ByteOrder::Big), vec![1, 2, 3, 4, 5, 6, 7, 8]);
    assert_eq!(0xabu8.desc_bytes(ByteOrder::Big), vec![0xab]);
    assert_eq!(7u64.desc_bytes(ByteOrder::native()), 7u64.to_ne_bytes().to_vec());
}

#[test]
fn big_endian_bytes_exact() {
    let n: Note<u32, 4> = Note::new("GNU", 3, 0x01020304u32);
    assert_eq!(
        n.to_bytes(ByteOrder::Big),
        vec![0, 0, 0, 4, 0, 0, 0, 4, 0, 0, 0, 3, b'G', b'N', b'U', 0, 1, 2, 3, 4]
    );
}

#[test]
fn little_endian_bytes_padded() {
    let n: Note<u16, 5> = Note::new("abcd", 0x0a0b0c0d, 0x0102u16);
    assert_eq!(
        n.to_bytes(ByteOrder::Little),
        vec![
            5, 0, 0, 0, 2, 0, 0, 0, 0x0d, 0x0c, 0x0b, 0x0a, b'a', b'b', b'c', b'd', 0, 0, 0, 0, 2,
            1, 0, 0
        ]
    );
}

#[test]
fn round_trip_recovers_fields() {
    for o in [ByteOrder::Little, ByteOrder::Big] {
        let n: Note<u64, 6> = Note::new("yyyyy", 2, 7u64);
        let bytes = n.to_bytes(o);
        assert_eq!(bytes.len() % 4, 0);
        let p = parse_note(&bytes, o).unwrap();
        assert_eq!(p.name_size, 6);
        assert_eq!(p.desc_size, 8);
        assert_eq!(p.type_tag, 2);
        assert_eq!(p.name, b"yyyyy\0".to_vec());
        assert_eq!(c_str_bytes(&p.name), b"yyyyy".to_vec());
        assert_eq!(p.desc, 7u64.desc_bytes(o));
    }
}

#[test]
fn records_in_sequence_read_back_independently() {
    let a: Note<u32, 3> = Note::new("ab", 1, 10u32);
    let b: Note<u8, 9> = Note::new("xxxxxxxx", 2, 20u8);
    let o = ByteOrder::native();
    let first = a.to_bytes(o);
    let mut section = first.clone();
    section.extend_from_slice(&b.to_bytes(o));
    assert_eq!(first.len() % 4, 0);
    let pa = parse_note(&section, o).unwrap();
    assert_eq!((pa.name_size, pa.desc_size, pa.type_tag), (3, 4, 1));
    assert_eq!(pa.name, b"ab\0".to_vec());
    let pb = parse_note(&section[first.len()..], o).unwrap();
    assert_eq!((pb.name_size, pb.desc_size, pb.type_tag), (9, 1, 2));
    assert_eq!(pb.name, b"xxxxxxxx\0".to_vec());
    assert_eq!(pb.desc, vec![20]);

    let mut swapped = b.to_bytes(o);
    swapped.extend_from_slice(&first);
    let pb2 = parse_note(&swapped, o).unwrap();
    assert_eq!(pb2.name, pb.name);
    assert_eq!(pb2.desc, pb.desc);
}

#[test]
fn parse_rejects_short_input() {
    assert!(parse_note(&[0u8; 11], ByteOrder::Little).is_none());
    let n: Note<u32, 4> = Note::new("GNU", 3, 5u32);
    let bytes = n.to_bytes(ByteOrder::Little);
    assert!(parse_note(&bytes[..19], ByteOrder::Little).is_none());
    assert!(parse_note(&bytes[..20], ByteOrder::Little).is_some());
}

#[test]
fn parse_rejects_oversized_header() {
    let mut bytes = vec![0xffu8; 12];
    bytes.extend_from_slice(&[0u8; 8]);
    assert!(parse_note(&bytes, ByteOrder::Big).is_none());
}

#[test]
fn order_read_from_bytes_of_one() {
    assert_eq!(ByteOrder::order_of_bytes_of_one([1, 0, 0, 0]), ByteOrder::Little);
    assert_eq!(ByteOrder::order_of_bytes_of_one([0, 0, 0, 1]), ByteOrder::Big);
    assert_eq!(ByteOrder::order_of_bytes_of_one(1u32.to_ne_bytes()), expected_native());
}
