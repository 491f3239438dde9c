use cbitmap::Bitmap;
use cbitmap::FillPrefix;

#[test]
fn round_trip_exact_length() {
    let src = [0x12u8, 0x34, 0x56, 0x78];
    let map = Bitmap::<4>::from_bytes(src);
    assert_eq!(map.into_bytes(), src);

    let src = [0xffu8; 7];
    let map = Bitmap::<7>::from_bytes(src);
    assert_eq!(map.into_bytes(), src);
}

#[test]
fn resize_on_construction() {
    // A longer source is truncated to the map's capacity.
    let map = Bitmap::<2>::from_bytes([1u8, 2, 3, 4]);
    assert_eq!(map.into_bytes(), [1u8, 2]);
    // A shorter source zero-fills the high-order bytes.
    let map = Bitmap::<4>::from_bytes([9u8]);
    assert_eq!(map.into_bytes(), [9u8, 0, 0, 0]);
    // A zero-capacity target always yields the empty map.
    let map = Bitmap::<0>::from_bytes([1u8, 2]);
    assert_eq!(map.into_bytes(), []);
}

#[test]
fn from_integers_little_endian() {
    let map = Bitmap::<4>::from_u32(0x11223344);
    assert_eq!(map.into_bytes(), [0x44u8, 0x33, 0x22, 0x11]);
    let map = Bitmap::<8>::from_u64(0x0102030405060708);
    assert_eq!(map.into_bytes(), [8u8, 7, 6, 5, 4, 3, 2, 1]);
    let map = Bitmap::<2>::from_u128(0x1_00ff);
    assert_eq!(map.into_bytes(), [0xffu8, 0x00]);
    let map = Bitmap::<3>::from_u8(0x7f);
    assert_eq!(map.into_bytes(), [0x7fu8, 0, 0]);
    let map = Bitmap::<1>::from_u16(0xabcd);
    assert_eq!(map.into_bytes(), [0xcdu8]);
}

#[test]
fn set_reset_idempotent() {
    let mut once = Bitmap::<3>::new();
    once.set(11);
    let mut twice = Bitmap::<3>::new();
    twice.set(11).set(11);
    assert_eq!(once.into_bytes(), twice.into_bytes());

    let mut once = Bitmap::<3>::from_bytes([0xffu8; 3]);
    once.reset(17);
    let mut twice = Bitmap::<3>::from_bytes([0xffu8; 3]);
    twice.reset(17).reset(17);
    assert_eq!(once.into_bytes(), twice.into_bytes());
}

#[test]
fn flip_involution() {
    let start = [0b1010_0101u8, 0b0011_1100];
    let mut map = Bitmap::<2>::from_bytes(start);
    map.flip(3).flip(3);
    assert_eq!(map.clone().into_bytes(), start);

    map.flip_all();
    assert_eq!(map.clone().into_bytes(), [0b0101_1010u8, 0b1100_0011]);
    map.flip_all();
    assert_eq!(map.into_bytes(), start);
}

#[test]
fn scan_complementarity() {
    let mut map = Bitmap::<2>::new();
    assert!(map.find_first_one().is_none());
    assert!(map.none());
    assert!(!map.any());
    assert!(!map.all());

    map.set(3);
    assert!(map.find_first_one().is_some());
    assert!(!map.none());
    assert!(map.any());

    map.set_all();
    assert!(map.find_first_zero().is_none());
    assert!(map.all());

    map.reset(15);
    assert!(map.find_first_zero().is_some());
    assert!(!map.all());
}

#[test]
fn count_matches_bit_testing() {
    let patterns: [[u8; 3]; 4] = [
        [0x00, 0x00, 0x00],
        [0xff, 0xff, 0xff],
        [0xaa, 0x55, 0x0f],
        [0x01, 0x80, 0x42],
    ];
    for bytes in patterns {
        let map = Bitmap::<3>::from_bytes(bytes);
        let mut by_bits: usize = 0;
        for i in 0..24 {
            if map.get_bool(i) {
                by_bits += 1;
            }
        }
        assert_eq!(map.count(), by_bits);
    }
    assert_eq!(Bitmap::<1>::from_u8(0xff).count(), 8);
    assert_eq!(Bitmap::<1>::from_u8(0xaa).count(), 4);
    assert_eq!(Bitmap::<1>::from_u8(0x00).count(), 0);
}

#[test]
fn zero_capacity_map() {
    let mut map = Bitmap::<0>::new();
    assert_eq!(map.bit_len(), 0);
    assert_eq!(map.byte_len(), 0);
    assert_eq!(map.count(), 0);
    assert!(map.find_first_one().is_none());
    assert!(map.find_first_zero().is_none());
    assert!(map.none());
    assert!(map.all());
    assert!(!map.any());
    assert_eq!(map.range_to_string(0, 1), None);
    map.set_all();
    map.reset_all();
    map.flip_all();
    assert_eq!(map.into_bytes(), []);
}

#[test]
fn range_rendering() {
    let map = Bitmap::<2>::from_u16(0b_011_11001100);
    let string = map.range_to_string(2, 11).unwrap();
    assert_eq!(&string, "011 110011");

    assert!(map.range_to_string(0, 100).is_none());
    assert!(map.range_to_string(100, 101).is_none());
    assert!(map.range_to_string(2, 1).is_none());

    let mut map = Bitmap::<2>::new();
    map.set(5);
    assert_eq!(&map.range_to_string(5, 6).unwrap(), "1");
    assert_eq!(&map.range_to_string(0, 16).unwrap(), "00000000 00100000");
}

#[test]
fn display_summary() {
    let mut map: Bitmap<3> = Bitmap::new();
    map.set(0);
    map.set(8);
    assert_eq!(&map.display_string(), "[24 bits] ...00000001 00000001");

    let map = Bitmap::<1>::from_u8(0b1010);
    assert_eq!(&map.display_string(), "[8 bits] 00001010");

    let map = Bitmap::<0>::new();
    assert_eq!(&map.display_string(), "[0 bits] ");

    let map = Bitmap::<2>::new();
    assert_eq!(&map.display_string(), "[16 bits] 00000000 00000000");
}

#[test]
fn fill_prefix_integers() {
    let mut map = Bitmap::<16>::new();
    map.fill_prefix(1u8 << 7);
    assert_eq!(map.test(7), true);
    map.fill_prefix(1u16 << 15);
    assert_eq!(map.test(15), true);
    // A fill overwrites the prefix rather than ORing into it.
    assert_eq!(map.test(7), false);
    map.fill_prefix(1u32 << 31);
    assert_eq!(map.test(31), true);
    map.fill_prefix(1u64 << 63);
    assert_eq!(map.test(63), true);
    map.fill_prefix(1u128 << 100);
    assert_eq!(map.test(100), true);
    // Bytes beyond the source are untouched.
    let mut map = Bitmap::<3>::from_bytes([0u8, 0, 0xee]);
    map.fill_prefix([0x12u8, 0x34]);
    assert_eq!(map.into_bytes(), [0x12u8, 0x34, 0xee]);
}

#[test]
fn bitand_widths() {
    let map = Bitmap::<2>::from_bytes([255u8, 255]);
    // An array longer than the map comes out zero beyond the map.
    assert_eq!(map.bitand([1u8; 4]), [1u8, 1, 0, 0]);
    // An array shorter than the map is just the overlap.
    assert_eq!(map.bitand([0x0fu8]), [0x0fu8]);
    // The map itself is unchanged by plain AND.
    assert_eq!(map.into_bytes(), [255u8, 255]);

    let mut map = Bitmap::<1>::from_u8(255);
    map.bitand_assign_u8(0b11111110);
    assert_eq!(map.test(0), false);
    assert_eq!(map.test(1), true);
}

#[test]
fn wrapper_copies_and_snapshots() {
    let mut map = Bitmap::<1>::new();
    map.set(0);
    let rmap = &map;
    let bit1 = rmap.at(0);
    let bit2 = bit1;
    assert_eq!(bit1.value, true);
    assert_eq!(bit2.into_bool(), true);

    // The snapshot does not follow later changes.
    let mut map = Bitmap::<1>::new();
    let before = map.at(3).into_bool();
    map.set(3);
    assert_eq!(before, false);
    assert_eq!(map.at(3).into_bool(), true);
}

#[test]
fn clone_keeps_bytes() {
    let map = Bitmap::<3>::from_bytes([1u8, 2, 3]);
    let copy = map.clone();
    assert_eq!(copy.into_bytes(), [1u8, 2, 3]);
    assert_eq!(map.into_bytes(), [1u8, 2, 3]);
}

#[test]
fn index_arithmetic() {
    assert_eq!(cbitmap::index::byte_of(0), 0);
    assert_eq!(cbitmap::index::byte_of(7), 0);
    assert_eq!(cbitmap::index::byte_of(8), 1);
    assert_eq!(cbitmap::index::bit_of(8), 0);
    assert_eq!(cbitmap::index::bit_of(13), 5);
    assert_eq!(cbitmap::index::split(13), (1, 5));
    assert_eq!(cbitmap::index::out_of_bounds(2, 15), false);
    assert_eq!(cbitmap::index::out_of_bounds(2, 16), true);
    assert_eq!(cbitmap::index::out_of_bounds(0, 0), true);
}

#[test]
fn chained_mutators() {
    let mut map = Bitmap::<1>::new();
    map.set(0).set(1).flip(1).reset(0).set(4);
    assert_eq!(map.into_bytes(), [0b00010000u8]);
    let mut map = Bitmap::<1>::new();
    map.set_all().flip(1);
    assert_eq!(map.into_bytes(), [0b11111101u8]);
    let mut map = Bitmap::<1>::from_u8(0xff);
    map.reset_all().flip(1);
    assert_eq!(map.into_bytes(), [0b00000010u8]);
}
