use wayland_wire::display::{error, wl_display, Event, GetRegistry, Request};
use wayland_wire::interface::{enumeration, Interface, Message, Opcode};
use wayland_wire::message::{args_len, read_args, write_args, Arg, message_header};
use wayland_wire::primitives::{
    read_nullable_object, read_nullable_string, write_nullable_object, write_nullable_string, Array, Fd,
    Fixed, Int, Kind, NewId, NewIdDyn, String as WlString, UInt, object,
};
use wayland_wire::wire::{pad_to_4, read_4_bytes, read_word, word_from_bytes, word_to_bytes, write_word};

fn wl(s: &str) -> WlString {
    WlString { bytes: s.as_bytes().to_vec() }
}

#[allow(clippy::identity_op)]
#[test]
fn test_align_to_4() {
    for i in 0..=16 {
        assert_eq!(pad_to_4(i * 4 + 0), 0);
        assert_eq!(pad_to_4(i * 4 + 1), 3);
        assert_eq!(pad_to_4(i * 4 + 2), 2);
        assert_eq!(pad_to_4(i * 4 + 3), 1);
    }
}

#[test]
fn words_are_little_endian() {
    assert_eq!(word_to_bytes(0x0403_0201), [1, 2, 3, 4]);
    assert_eq!(word_from_bytes([1, 2, 3, 4]), 0x0403_0201);
    let mut out = Vec::new();
    write_word(&mut out, 0xdead_beef);
    assert_eq!(out, vec![0xef, 0xbe, 0xad, 0xde]);
    let mut pos = 0;
    assert_eq!(read_4_bytes(&[9, 8, 7], &mut pos), None);
    assert_eq!(pos, 0);
    let e = read_word(&[9, 8, 7], &mut pos).err().unwrap();
    assert_eq!(e.err, error::implementation);
}

fn encode(a: &Arg) -> (Vec<u8>, Vec<i32>) {
    let mut out = Vec::new();
    let mut fds = Vec::new();
    a.write(&mut out, &mut fds);
    assert_eq!(out.len() as u32, a.len());
    assert_eq!(out.len() % 4, 0);
    (out, fds)
}

fn decode(k: Kind, data: &[u8], fds: &[i32]) -> Arg {
    let (mut pos, mut fd_pos) = (0, 0);
    let a = Arg::read(k, data, &mut pos, fds, &mut fd_pos).ok().unwrap();
    assert_eq!(pos, data.len());
    assert_eq!(fd_pos, fds.len());
    a
}

#[test]
fn round_trip_scalars() {
    for v in [0, 1, -1, i32::MIN, i32::MAX, 123_456] {
        let (d, f) = encode(&Arg::Int(Int(v)));
        match decode(Kind::Int, &d, &f) {
            Arg::Int(Int(x)) => assert_eq!(x, v),
            _ => panic!("wrong kind"),
        }
        let (d, f) = encode(&Arg::Fixed(Fixed(v)));
        match decode(Kind::Fixed, &d, &f) {
            Arg::Fixed(Fixed(x)) => assert_eq!(x, v),
            _ => panic!("wrong kind"),
        }
    }
    for v in [0u32, 1, u32::MAX, 0x8000_0000] {
        let (d, f) = encode(&Arg::Uint(UInt(v)));
        match decode(Kind::Uint, &d, &f) {
            Arg::Uint(UInt(x)) => assert_eq!(x, v),
            _ => panic!("wrong kind"),
        }
    }
    let (d, f) = encode(&Arg::Object(object::from_id(7)));
    assert_eq!(d, vec![7, 0, 0, 0]);
    match decode(Kind::Object, &d, &f) {
        Arg::Object(o) => assert_eq!(o.id(), 7),
        _ => panic!("wrong kind"),
    }
    let (d, f) = encode(&Arg::NewId(NewId::from_id(u32::MAX)));
    match decode(Kind::NewId, &d, &f) {
        Arg::NewId(n) => assert_eq!(n.id(), u32::MAX),
        _ => panic!("wrong kind"),
    }
}

#[test]
fn round_trip_strings_and_arrays() {
    for s in ["", "a", "ab", "abc", "abcd", "wl_compositor"] {
        let (d, f) = encode(&Arg::Str(wl(s)));
        assert_eq!(d.len(), 4 + (s.len() + 1 + 3) / 4 * 4);
        assert!(d[4 + s.len()..].iter().all(|b| *b == 0));
        match decode(Kind::Str, &d, &f) {
            Arg::Str(x) => assert_eq!(x.bytes, s.as_bytes()),
            _ => panic!("wrong kind"),
        }
    }
    for a in [vec![], vec![1u8], vec![1, 2, 3, 4, 5]] {
        let (d, f) = encode(&Arg::Array(Array { data: a.clone() }));
        assert_eq!(d.len(), 4 + (a.len() + 3) / 4 * 4);
        assert!(d[4 + a.len()..].iter().all(|b| *b == 0));
        match decode(Kind::Array, &d, &f) {
            Arg::Array(x) => assert_eq!(x.data, a),
            _ => panic!("wrong kind"),
        }
    }
    let dynid = NewIdDyn { name: wl("wl_seat"), version: UInt(7), id: NewId::from_id(9) };
    let (d, f) = encode(&Arg::NewIdDyn(dynid));
    assert_eq!(&d[..4], &[8, 0, 0, 0]);
    assert_eq!(&d[d.len() - 8..], &[7, 0, 0, 0, 9, 0, 0, 0]);
    match decode(Kind::NewIdDyn, &d, &f) {
        Arg::NewIdDyn(x) => {
            assert_eq!(x.name.bytes, b"wl_seat");
            assert_eq!(x.version.0, 7);
            assert_eq!(x.id.id, 9);
        }
        _ => panic!("wrong kind"),
    }
}

#[test]
fn string_padding_exact_multiple() {
    let (d, f) = encode(&Arg::Str(wl("wl_")));
    assert_eq!(d, vec![4, 0, 0, 0, b'w', b'l', b'_', 0]);
    assert!(f.is_empty());
}

#[test]
fn string_padding_non_multiple() {
    let (d, _) = encode(&Arg::Str(wl("hi")));
    assert_eq!(d, vec![3, 0, 0, 0, b'h', b'i', 0, 0]);
}

#[test]
fn null_object() {
    let mut out = Vec::new();
    write_nullable_object(None, &mut out);
    assert_eq!(out, vec![0, 0, 0, 0]);
    let (mut pos, mut fd_pos) = (0, 0);
    assert!(read_nullable_object(&out, &mut pos, &[], &mut fd_pos).ok().unwrap().is_none());
    assert_eq!(pos, 4);
    let mut pos = 0;
    let e = object::<()>::read(&out, &mut pos, &[], &mut fd_pos).err().unwrap();
    assert_eq!(e.err, error::invalid_method);
    assert_eq!(pos, 0);
}

#[test]
fn null_string() {
    let mut out = Vec::new();
    write_nullable_string(&None, &mut out);
    assert_eq!(out, vec![0, 0, 0, 0]);
    let (mut pos, mut fd_pos) = (0, 0);
    assert!(read_nullable_string(&out, &mut pos, &[], &mut fd_pos).ok().unwrap().is_none());
    let mut pos = 0;
    let e = WlString::read(&out, &mut pos, &[], &mut fd_pos).err().unwrap();
    assert_eq!(e.err, error::invalid_method);
    assert_eq!(pos, 0);
}

#[test]
fn decode_errors() {
    let (mut pos, mut fd_pos) = (0, 0);
    // new_id of zero
    let e = NewId::<()>::read(&[0, 0, 0, 0], &mut pos, &[], &mut fd_pos).err().unwrap();
    assert_eq!(e.err, error::invalid_method);
    // string without its terminating zero
    let e = WlString::read(&[2, 0, 0, 0, b'h', b'i', 0, 0], &mut pos, &[], &mut fd_pos).err().unwrap();
    assert_eq!(e.err, error::invalid_method);
    // content longer than the buffer
    let e = Array::read(&[9, 0, 0, 0, 1, 2, 3, 4], &mut pos, &[], &mut fd_pos).err().unwrap();
    assert_eq!(e.err, error::implementation);
    assert_eq!(pos, 0);
    // short word
    let e = UInt::read(&[1, 2], &mut pos, &[], &mut fd_pos).err().unwrap();
    assert_eq!(e.err, error::implementation);
    // missing descriptor
    let e = Fd::read(&[], &mut pos, &[], &mut fd_pos).err().unwrap();
    assert_eq!(e.err, error::implementation);
    let fd = Fd::read(&[], &mut pos, &[42], &mut fd_pos).ok().unwrap();
    assert_eq!((fd.0, fd_pos), (42, 1));
}

#[test]
fn fixed_conversions() {
    assert_eq!(Fixed::from_i32(3).0, 768);
    assert_eq!(Fixed::from_i32(-2).0, -512);
    assert_eq!(Fixed(768 + 255).to_i32(), 3);
    assert_eq!(Fixed(-300).to_i32(), -1);
    assert_eq!(Fixed(i32::MIN).to_i32(), -8388608);
}

#[test]
fn body_round_trip() {
    let args = vec![
        Arg::Uint(UInt(5)),
        Arg::Str(wl("hello")),
        Arg::Fd(Fd(11)),
        Arg::NullableObject(Some(object::from_id(3))),
        Arg::Array(Array { data: vec![1, 2, 3] }),
        Arg::Fd(Fd(12)),
    ];
    let mut out = Vec::new();
    let mut fds = Vec::new();
    write_args(&args, &mut out, &mut fds);
    assert_eq!(args_len(&args), out.len() as u64);
    assert_eq!(fds, vec![11, 12]);
    let kinds: Vec<Kind> = args.iter().map(|a| a.kind()).collect();
    let (mut pos, mut fd_pos) = (0, 0);
    let back = read_args(&kinds, &out, &mut pos, &fds, &mut fd_pos).ok().unwrap();
    assert_eq!((pos, fd_pos), (out.len(), 2));
    assert_eq!(back.len(), args.len());
    match (&back[1], &back[4]) {
        (Arg::Str(s), Arg::Array(a)) => {
            assert_eq!(s.bytes, b"hello");
            assert_eq!(a.data, vec![1, 2, 3]);
        }
        _ => panic!("wrong kinds"),
    }
    // a body cut short fails as a whole and leaves the cursors
    let (mut pos, mut fd_pos) = (0, 0);
    let e = read_args(&kinds, &out[..out.len() - 4], &mut pos, &fds, &mut fd_pos).err().unwrap();
    assert_eq!(e.err, error::implementation);
    assert_eq!((pos, fd_pos), (0, 0));
}

#[test]
fn header_layout() {
    let h = message_header { object_id: object::from_id(1), datalen: 12, opcode: 1 };
    let mut out = Vec::new();
    h.write(&mut out);
    assert_eq!(out, vec![1, 0, 0, 0, 1, 0, 12, 0]);
    let mut pos = 0;
    let back = message_header::read(&out, &mut pos).ok().unwrap();
    assert_eq!((back.object_id.id, back.datalen, back.opcode, pos), (1, 12, 1, 8));
    assert_eq!(back.content_len(), 4);
    let short = message_header { object_id: object::from_id(1), datalen: 4, opcode: 0 };
    assert_eq!(short.content_len(), 65532);
}

#[test]
fn display_enums() {
    assert_eq!(error::from_u32(1), Some(error::invalid_method));
    assert_eq!(error::from_u32(4), None);
    assert_eq!(error::implementation.to_u32(), 3);
    assert!(matches!(Event::from_u16(0), Ok(Event::error)));
    assert!(matches!(Event::from_u16(7), Err(7)));
    assert_eq!(Request::get_registry.to_u16(), 1);
    let e = object::<wl_display>::from_id(1).err(error::no_memory, "out of memory");
    assert_eq!((e.object.id, e.err, e.msg), (1, 2, "out of memory"));
    assert_eq!(e.err(), Some(error::no_memory));
}

#[test]
fn display_interface_surface() {
    assert_eq!(wl_display::name(), "wl_display");
    assert_eq!(wl_display::version(), 1);
    assert_eq!(error::invalid_object.since_version(), 1);
    assert_eq!(Event::delete_id.fd_count(), 0);
    assert!(matches!(Request::from_u16(2), Err(2)));
    let m = GetRegistry { registry: NewId::from_id(2) };
    assert_eq!(m.opcode(), 1);
    let args = m.to_args();
    let mut out = Vec::new();
    let mut fds = Vec::new();
    write_args(&args, &mut out, &mut fds);
    assert_eq!(out, vec![2, 0, 0, 0]);
}

#[test]
fn error_enum_field() {
    let mut out = Vec::new();
    error::no_memory.write(&mut out);
    assert_eq!(out, vec![2, 0, 0, 0]);
    let mut pos = 0;
    assert_eq!(error::read(&out, &mut pos).ok(), Some(error::no_memory));
    assert_eq!(pos, 4);
    let mut pos = 0;
    let e = error::read(&[9, 0, 0, 0], &mut pos).err().unwrap();
    assert_eq!((e.err, pos), (error::invalid_method, 0));
}

#[test]
fn casts_keep_the_id() {
    let o: object<wl_display> = object::from_id(1);
    let plain: object = o.cast();
    assert_eq!(plain.id(), 1);
    let n: NewId<wl_display> = NewId::from_id(5);
    assert_eq!(n.cast::<()>().id(), 5);
    assert_eq!(n.to_object().id(), 5);
    let e = o.err(error::invalid_object, "gone").cast::<()>();
    assert_eq!((e.object.id, e.err, e.msg), (1, 0, "gone"));
    assert_eq!(n.err(error::no_memory, "x").object.id, 5);
}
