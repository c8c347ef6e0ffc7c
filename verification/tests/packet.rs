use asan_runtime::inputs::{HasLen, HasTargetBytes, NopToTargetBytes, ToTargetBytes};
use asan_runtime::packet::{PacketData, PacketType, UnsafeEnum, HEADER_SIZE};

#[test]
fn a_packet_type_has_its_number() {
    assert_eq!(PacketType::Read.to_primitive(), 0);
    assert_eq!(PacketType::Write.to_primitive(), 1);
    assert_eq!(PacketType::Reset.to_primitive(), 2);
    assert_eq!(PacketType::default(), PacketType::Read);
    assert_eq!(UnsafeEnum::Valid(PacketType::Reset).to_primitive(), 2);
    assert_eq!(UnsafeEnum::Invalid(0xdead_beef).to_primitive(), 0xdead_beef);
    assert_eq!(UnsafeEnum::default(), UnsafeEnum::Valid(PacketType::Read));
}

#[test]
fn a_packet_goes_on_the_wire_low_byte_first() {
    let p = PacketData {
        typ: UnsafeEnum::Valid(PacketType::Write),
        offset: 0x0102_0304_0506_0708,
        length: 3,
        data: vec![9, 8, 7],
    };
    assert_eq!(
        p.target_bytes(),
        vec![
            1, 0, 0, 0, // type
            8, 7, 6, 5, 4, 3, 2, 1, // offset
            3, 0, 0, 0, 0, 0, 0, 0, // length
            9, 8, 7, // data
        ]
    );
    assert_eq!(p.serialized_size(), 23);
    assert_eq!(p.len(), 23);
    assert!(!p.is_empty());
}

#[test]
fn an_unknown_type_goes_on_the_wire_as_it_is() {
    let p = PacketData {
        typ: UnsafeEnum::Invalid(0xdead_beef),
        offset: u64::MAX,
        length: 0x8000_0000_0000_0001,
        data: vec![],
    };
    assert_eq!(
        p.target_bytes(),
        vec![
            0xef, 0xbe, 0xad, 0xde, 0xff, 0xff, 0xff, 0xff, 0xff, 0xff, 0xff, 0xff, 1, 0, 0, 0, 0,
            0, 0, 0x80,
        ]
    );
    assert_eq!(p.serialized_size(), HEADER_SIZE);
    assert_eq!(HEADER_SIZE, 20);
}

#[test]
fn a_default_packet_is_a_read_of_nothing() {
    let p = PacketData::default();
    assert_eq!(p.typ, UnsafeEnum::Valid(PacketType::Read));
    assert_eq!(p.offset, 0);
    assert_eq!(p.length, 0);
    assert!(p.data.is_empty());
    assert_eq!(p.target_bytes(), vec![0u8; 20]);
}

#[test]
fn fixup_sets_the_length_to_that_of_the_data() {
    let mut p = PacketData {
        typ: UnsafeEnum::Valid(PacketType::Reset),
        offset: 77,
        length: 1000,
        data: vec![1, 2, 3, 4, 5],
    };
    p.fixup();
    assert_eq!(p.length, 5);
    assert_eq!(p.offset, 77);
    assert_eq!(p.typ, UnsafeEnum::Valid(PacketType::Reset));
    assert_eq!(p.data, vec![1, 2, 3, 4, 5]);
    assert_eq!(&p.target_bytes()[12..20], &[5, 0, 0, 0, 0, 0, 0, 0]);
    p.data.clear();
    p.fixup();
    assert_eq!(p.length, 0);
}

#[test]
fn the_nop_converter_hands_out_the_wire_bytes_of_a_packet() {
    let p = PacketData {
        typ: UnsafeEnum::Valid(PacketType::Reset),
        offset: 1,
        length: 1,
        data: vec![0xaa],
    };
    let mut c = NopToTargetBytes::new();
    assert_eq!(c.to_target_bytes(&p), p.target_bytes());
    assert_eq!(c.to_target_bytes(&p).len(), 21);
}
