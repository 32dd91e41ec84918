use wayland_wire::bits::{assign_add_wrap, bitmask_range, lowest_one, slot, ChunkInfo, Pos, WaylandPos};

#[test]
fn t() {
    let foo = WaylandPos { data: 200_000, ctrl: 500, slot: 30_000 };

    let val = foo.into_64();
    println!("{val:0x}");

    assert_eq!(foo, WaylandPos::from_u64(val))
}

#[test]
fn test_assing_add_wrap_normal_case() {
    let mut s = 16;
    assign_add_wrap::<32>(&mut s, 15);
    assert_eq!(s, 31);
}

#[test]
fn test_assing_add_wrap_wrapping_case() {
    let mut s = 16;
    assign_add_wrap::<32>(&mut s, 17);
    assert_eq!(s, 1);
}

#[test]
fn assign_add_wrap_exactly_at_bound() {
    let mut s = 16;
    assign_add_wrap::<32>(&mut s, 16);
    assert_eq!(s, 0);
}

#[test]
fn assign_add_wrap_large_step() {
    let mut s = 16;
    assign_add_wrap::<32>(&mut s, 50);
    assert_eq!(s, 34);
}

#[test]
fn bitmask_range_values() {
    assert_eq!(bitmask_range(0, 0), 1);
    assert_eq!(bitmask_range(0, 3), 0b1111);
    assert_eq!(bitmask_range(4, 7), 0xf0);
    assert_eq!(bitmask_range(0, 63), u64::MAX);
    assert_eq!(bitmask_range(60, 63), 0xf000_0000_0000_0000);
    assert_eq!(bitmask_range(5, 4), 0);
    assert_eq!(ChunkInfo { chunk: 3, lower: 8, upper: 15 }.mask(), 0xff00);
}

#[test]
fn lowest_one_values() {
    assert_eq!(lowest_one(0), None);
    assert_eq!(lowest_one(1), Some(0));
    assert_eq!(lowest_one(0b1011_0000), Some(4));
    assert_eq!(lowest_one(3), Some(0));
    assert_eq!(lowest_one(1 << 63), Some(63));
    assert_eq!(lowest_one(u64::MAX), Some(0));
}

#[test]
fn pos_wrapping_add() {
    let p = Pos { chunk: 1, index: 60 }.wrapping_add::<4>(3);
    assert_eq!((p.chunk, p.index), (1, 63));
    let p = Pos { chunk: 1, index: 60 }.wrapping_add::<4>(10);
    assert_eq!((p.chunk, p.index), (2, 6));
    let p = Pos { chunk: 3, index: 62 }.wrapping_add::<4>(2);
    assert_eq!((p.chunk, p.index), (0, 0));
}

#[test]
fn slot_fields() {
    let s = slot::new(5, 9);
    assert_eq!(s.0, 5 * 64 + 9);
    assert_eq!(s.get(), (5, 9));
    assert_eq!(s.upper(), 5);
    assert_eq!(s.lower(), 9);
}

#[test]
fn wayland_pos_fields_are_cut_to_width() {
    let p = WaylandPos::from_u64(u64::MAX);
    assert_eq!((p.data, p.ctrl, p.slot), (0x3ffff, 0x3ff, 0x7fff));
    let zero = WaylandPos { data: 0, ctrl: 0, slot: 0 };
    assert_eq!(zero.into_64(), 0);
    let q = WaylandPos { data: 1, ctrl: 2, slot: 3 };
    assert_eq!(q.into_64(), (1 << 32) | (2 << 16) | 3);
}
