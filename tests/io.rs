use wayland_wire::io::{
    after_recv, after_send, AfterSend, FlushStep, Interest, Io, RecvStep, SendAttempt, TxError, MAX_DATA, MAX_FDS,
};
use wayland_wire::message::{read_args, Arg};
use wayland_wire::primitives::{Array, Fd, Kind, NewId, String as WlString, UInt, object};
use wayland_wire::registry::Registry;
use wayland_wire::ring::{free_space, Bufs, Pair, Point, PointRange, Range, RingBuf};

fn frame(id: u32, opcode: u16, body: &[u8]) -> Vec<u8> {
    let len = (8 + body.len()) as u32;
    let mut f = Vec::new();
    f.extend_from_slice(&id.to_le_bytes());
    f.extend_from_slice(&((len << 16) | opcode as u32).to_le_bytes());
    f.extend_from_slice(body);
    f
}

fn queued(io: &mut Io) -> (Vec<u8>, Vec<i32>) {
    io.send_plan().unwrap_or((Vec::new(), Vec::new()))
}

#[test]
fn get_registry_request_bytes() {
    let mut io = Io::new();
    let args = vec![Arg::NewId(NewId::from_id(2))];
    assert_eq!(io.tx_msg_buf(object::from_id(1), 1, &args), Ok(()));
    let (d, f) = queued(&mut io);
    assert_eq!(d, vec![1, 0, 0, 0, 1, 0, 12, 0, 2, 0, 0, 0]);
    assert!(f.is_empty());
    assert!(io.interest.send);
    // the global event that answers it, decoded with its schema
    let mut body = Vec::new();
    body.extend_from_slice(&[1, 0, 0, 0]);
    body.extend_from_slice(&[14, 0, 0, 0]);
    body.extend_from_slice(b"wl_compositor\0\0\0");
    body.extend_from_slice(&[6, 0, 0, 0]);
    let bytes = frame(2, 0, &body);
    io.on_received(&bytes, &vec![]);
    let reg = Registry::new();
    match io.poll_recv(&reg, 2, &[0, 0]) {
        RecvStep::Deliver(h, data, fds) => {
            assert_eq!(h.opcode, 0);
            let (mut pos, mut fd_pos) = (0, 0);
            let args = read_args(&[Kind::Uint, Kind::Str, Kind::Uint], &data, &mut pos, &fds, &mut fd_pos)
                .ok()
                .unwrap();
            match (&args[0], &args[1], &args[2]) {
                (Arg::Uint(name), Arg::Str(iface), Arg::Uint(version)) => {
                    assert!(name.0 != 0);
                    assert_eq!(iface.bytes, b"wl_compositor");
                    assert!(version.0 != 0);
                }
                _ => panic!("wrong kinds"),
            }
        }
        _ => panic!("expected a delivery"),
    }
}

#[test]
fn alignment_of_queued_frames() {
    let mut io = Io::new();
    let bodies = vec![
        vec![Arg::Str(WlString { bytes: b"a".to_vec() })],
        vec![Arg::Array(Array { data: vec![1, 2, 3, 4, 5] }), Arg::Uint(UInt(1))],
        vec![],
        vec![Arg::Str(WlString { bytes: b"four".to_vec() })],
    ];
    for args in &bodies {
        assert_eq!(io.tx_msg_buf(object::from_id(5), 0, args), Ok(()));
        let (d, _) = queued(&mut io);
        assert_eq!(d.len() % 4, 0);
    }
}

#[test]
fn frame_length_field() {
    let mut io = Io::new();
    let args = vec![Arg::Str(WlString { bytes: b"hello".to_vec() }), Arg::Uint(UInt(3))];
    let len = wayland_wire::message::args_len(&args);
    assert_eq!(io.tx_msg_buf(object::from_id(9), 4, &args), Ok(()));
    let (d, _) = queued(&mut io);
    let datalen = u16::from_le_bytes([d[6], d[7]]);
    assert_eq!(datalen as u64, 8 + len);
    assert_eq!(datalen, 24);
    assert_eq!(u16::from_le_bytes([d[4], d[5]]), 4);
}

#[test]
fn fd_passthrough() {
    let mut io = Io::new();
    let args = vec![Arg::Fd(Fd(17))];
    assert_eq!(io.tx_msg_buf(object::from_id(4), 3, &args), Ok(()));
    let (d, f) = queued(&mut io);
    assert_eq!(d, vec![4, 0, 0, 0, 3, 0, 8, 0]);
    assert_eq!(f, vec![17]);
    // the kernel takes it all
    assert!(!io.on_sent(8, 1));
    assert!(!io.interest.send);
    // receiving side: the descriptor is in the rx ring before the body is parsed
    let mut rx = Io::new();
    rx.on_received(&d, &vec![f.clone()]);
    let reg = Registry::new();
    match rx.poll_recv(&reg, 4, &[0, 0, 0, 1]) {
        RecvStep::Deliver(h, data, fds) => {
            assert_eq!((h.opcode, data.len()), (3, 0));
            assert_eq!(fds, vec![17]);
        }
        _ => panic!("expected a delivery"),
    }
}

#[test]
fn duplicate_rights_are_discarded() {
    let mut io = Io::new();
    let dropped = io.on_received(&frame(2, 0, &[]), &vec![vec![1, 2], vec![3]]);
    assert_eq!(dropped, 1);
    let reg = Registry::new();
    match io.poll_recv(&reg, 2, &[2]) {
        RecvStep::Deliver(_, _, fds) => assert_eq!(fds, vec![1, 2]),
        _ => panic!("expected a delivery"),
    }
}

#[test]
fn no_room_and_too_large() {
    let mut io = Io::new();
    let big = vec![Arg::Array(Array { data: vec![0; 70_000] })];
    assert_eq!(io.tx_msg_buf(object::from_id(3), 0, &big), Err(TxError::TooLarge));
    let chunk = vec![Arg::Array(Array { data: vec![7; 65_000] })];
    let mut n = 0;
    while io.tx_msg_buf(object::from_id(3), 0, &chunk) == Ok(()) {
        n += 1;
    }
    assert_eq!(n, MAX_DATA / 65_012);
    assert_eq!(io.tx_msg_buf(object::from_id(3), 0, &chunk), Err(TxError::NoRoom));
    let (d, _) = queued(&mut io);
    assert_eq!(d.len(), n * 65_012);
}

#[test]
fn send_plan_caps_descriptors() {
    let mut io = Io::new();
    let args: Vec<Arg> = (0..300).map(|i| Arg::Fd(Fd(i))).collect();
    assert_eq!(io.tx_msg_buf(object::from_id(3), 0, &args), Ok(()));
    let (d, f) = queued(&mut io);
    assert_eq!(d.len(), 8);
    assert_eq!(f.len(), MAX_FDS);
    assert!(!io.on_sent(8, MAX_FDS));
    io.on_send_closed();
    assert!(io.send_plan().is_none());
    assert_eq!(io.tx_msg_buf(object::from_id(3), 0, &vec![]), Ok(()));
    assert!(!io.interest.send);
    assert!(io.interest.send_closed);
}

#[test]
fn multiplexed_recv() {
    let mut reg = Registry::new();
    let a = reg.new_object().unwrap();
    let b = reg.new_object().unwrap();
    assert_eq!((a, b), (2, 3));
    reg.register_recv(a, 100, vec![0]);
    reg.register_recv(b, 200, vec![0]);
    let mut io = Io::new();
    let mut wire = frame(3, 0, &[1, 0, 0, 0]);
    wire.extend(frame(2, 0, &[2, 0, 0, 0]));
    io.on_received(&wire, &vec![]);
    // A polls first, finds B's frame and hands it over
    match io.poll_recv(&reg, a, &[0]) {
        RecvStep::Dispatch(w) => assert_eq!(w, 200),
        _ => panic!("expected a dispatch to B"),
    }
    // B resolves first, then A, with no further receive
    match io.poll_recv(&reg, b, &[0]) {
        RecvStep::Deliver(h, d, _) => assert_eq!((h.object_id.id, d), (3, vec![1, 0, 0, 0])),
        _ => panic!("expected B's frame"),
    }
    match io.poll_recv(&reg, a, &[0]) {
        RecvStep::Deliver(h, d, _) => assert_eq!((h.object_id.id, d), (2, vec![2, 0, 0, 0])),
        _ => panic!("expected A's frame"),
    }
    assert!(matches!(io.poll_recv(&reg, a, &[0]), RecvStep::NeedIo));
    assert!(io.interest.recv);
}

#[test]
fn routing_round_robin() {
    let n: u32 = 6;
    let mut reg = Registry::new();
    let ids: Vec<u32> = (0..n).map(|_| reg.new_object().unwrap()).collect();
    for &id in &ids {
        reg.register_recv(id, id as u64, vec![0]);
    }
    let mut io = Io::new();
    let mut wire = Vec::new();
    for &id in &ids {
        wire.extend(frame(id, 0, &id.to_le_bytes()));
    }
    io.on_received(&wire, &vec![]);
    // every object polls in turn, starting with the last one; a dispatch wakes its target
    let mut done = vec![false; n as usize];
    let mut ready: Vec<u32> = ids.iter().rev().cloned().collect();
    let mut polls = 0;
    while let Some(id) = ready.pop() {
        polls += 1;
        assert!(polls <= (n * n) as usize);
        match io.poll_recv(&reg, id, &[0]) {
            RecvStep::Deliver(h, d, _) => {
                assert_eq!(h.object_id.id, id);
                assert_eq!(d, id.to_le_bytes().to_vec());
                done[(id - 2) as usize] = true;
            }
            RecvStep::Dispatch(w) => ready.push(w as u32),
            RecvStep::NeedIo => {}
            _ => panic!("unexpected step"),
        }
    }
    assert!(done.iter().all(|d| *d));
}

#[test]
fn dropped_poll_changes_nothing() {
    let mut reg = Registry::new();
    reg.register_recv(2, 20, vec![0]);
    reg.register_recv(3, 30, vec![0]);
    let mut io = Io::new();
    let wire = frame(3, 0, &[9, 9, 9, 9]);
    // the frame arrives in two pieces
    io.on_received(&wire[..10], &vec![]);
    assert!(matches!(io.poll_recv(&reg, 3, &[0]), RecvStep::NeedIo));
    assert!(matches!(io.poll_recv(&reg, 2, &[0]), RecvStep::NeedIo));
    io.on_received(&wire[10..], &vec![]);
    // object 2 is routed away and gives up; object 3 still gets the whole frame
    assert!(matches!(io.poll_recv(&reg, 2, &[0]), RecvStep::Dispatch(30)));
    match io.poll_recv(&reg, 3, &[0]) {
        RecvStep::Deliver(_, d, _) => assert_eq!(d, vec![9, 9, 9, 9]),
        _ => panic!("expected the frame"),
    }
}

#[test]
fn unknown_target_and_bad_opcode() {
    let reg = Registry::new();
    let mut io = Io::new();
    io.on_received(&frame(7, 0, &[]), &vec![]);
    assert!(matches!(io.poll_recv(&reg, 2, &[0]), RecvStep::Unknown(7)));
    assert!(matches!(io.poll_recv(&reg, 7, &[]), RecvStep::Protocol(_)));
    match io.poll_recv(&reg, 7, &[0]) {
        RecvStep::Deliver(h, _, _) => assert_eq!(h.object_id.id, 7),
        _ => panic!("expected the frame"),
    }
    let mut io = Io::new();
    io.on_received(&[0, 0, 0, 0, 0, 0, 8, 0], &vec![]);
    assert!(matches!(io.poll_recv(&reg, 2, &[0]), RecvStep::Protocol(_)));
}

#[test]
fn closing_and_interest() {
    let mut io = Io::new();
    assert_eq!(io.query_interest(), Some((true, false)));
    assert!(io.recv_wanted());
    io.on_recv_closed();
    assert!(!io.recv_wanted());
    assert_eq!(io.interest, Interest { recv: false, send: false, recv_closed: true, send_closed: false });
    assert_eq!(io.query_interest(), None);
    assert_eq!(io.recv_room(), (MAX_DATA, 1024));
}

#[test]
fn registry_wakeups() {
    let mut reg = Registry::new();
    assert_eq!(reg.wake_sender(), None);
    reg.register_send(1);
    reg.register_send(2);
    reg.register_send_locked(3);
    reg.register_send_locked(4);
    assert_eq!(reg.wake_sender(), Some(3));
    assert_eq!(reg.wake_sender(), Some(1));
    assert_eq!(reg.wake_sender(), Some(2));
    assert_eq!(reg.wake_sender(), Some(4));
    assert_eq!(reg.wake_sender(), None);
    reg.register_recv(9, 90, vec![0, 1]);
    reg.register_recv(5, 50, vec![]);
    reg.register_recv(9, 91, vec![]);
    assert_eq!(reg.lookup(9, 1), Some((91, Some(1))));
    assert_eq!(reg.lookup(5, 0), Some((50, None)));
    reg.register_send_locked(7);
    assert_eq!(reg.wake_recver(91), (Some(7), Some(50)));
    assert_eq!(reg.wake_recver(50), (None, None));
    reg.remove_recv(5);
    assert_eq!(reg.lookup(5, 0), None);
    assert_eq!(reg.wake_recver(50), (None, Some(91)));
}

#[test]
fn ring_fifo_with_wrap() {
    let mut ring: RingBuf<u8> = RingBuf::new(64, 0);
    let mut model: std::collections::VecDeque<u8> = std::collections::VecDeque::new();
    let mut seed: u32 = 12345;
    let mut next = || {
        seed = seed.wrapping_mul(1_103_515_245).wrapping_add(12_345);
        (seed >> 16) % 40
    };
    let mut counter: u8 = 0;
    for _ in 0..2000 {
        let n = next() as usize;
        let run: Vec<u8> = (0..n).map(|_| { counter = counter.wrapping_add(1); counter }).collect();
        let fits = model.len() + n <= 64;
        assert_eq!(ring.push_slice(&run), fits);
        if fits {
            model.extend(run.iter());
        }
        let m = next() as usize;
        match ring.pop_front(m) {
            Some(out) => {
                let expect: Vec<u8> = model.drain(..m).collect();
                assert_eq!(out, expect);
            }
            None => assert!(m > model.len()),
        }
        assert_eq!(ring.len(), model.len());
        assert_eq!(ring.free_space(), 64 - model.len());
    }
}

#[test]
fn ring_cursor_and_ranges() {
    let mut ring: RingBuf<i32> = RingBuf::new(8, -1);
    assert!(ring.is_empty());
    assert!(ring.push_slice(&[1, 2, 3]));
    let c = ring.save_cursor();
    assert_eq!(ring.pop_front(2), Some(vec![1, 2]));
    assert_eq!(ring.unused_start(), 2);
    assert_eq!(ring.unused_end(), 5);
    ring.restore_cursor(c);
    assert_eq!(ring.peek(3), Some(vec![1, 2, 3]));
    assert_eq!(ring.capacity(), 8);
    ring.compact();
    assert_eq!(ring.unused_start(), 0);

    let r = Range { from: 6, upto: 2 };
    assert_eq!(r.into_ring_bounds(8), ((6, 8), Some((0, 2))));
    assert_eq!(Range { from: 1, upto: 4 }.into_ring_bounds(8), ((1, 4), None));
    assert_eq!(r.invert(8), Range { from: 2, upto: 5 });
    assert_eq!(Range { from: 0, upto: 3 }.invert(8), Range { from: 3, upto: 8 });
    let p = PointRange { slot: Range { from: 0, upto: 3 }, data: Range { from: 4, upto: 9 } };
    assert_eq!(p.to(), Point { slot: 3, data: 9 });
}

#[test]
fn free_regions_of_a_ring() {
    assert_eq!(free_space(4, 10, 16), Bufs::Two(10, 16, 0, 3));
    assert_eq!(free_space(0, 10, 16), Bufs::One(10, 16));
    assert_eq!(free_space(4, 16, 12), Bufs::One(0, 3));
    assert_eq!(free_space(0, 16, 12), Bufs::Empty);
    assert_eq!(free_space(8, 10, 6), Bufs::One(0, 6));
    assert_eq!(free_space(10, 2, 16), Bufs::One(2, 10));
    assert_eq!(free_space(10, 2, 6), Bufs::One(2, 6));
    assert_eq!(free_space(10, 4, 3), Bufs::Empty);
    let p = Pair { free: 4, next: 10 };
    assert_eq!(p.free_space(16), Bufs::Two(10, 16, 0, 3));
    assert!(p.range_in_bound(4, 5));
    assert!(!p.range_in_bound(4, 6));
    assert!(!p.range_in_bound(2, 1));
    let w = Pair { free: 10, next: 4 };
    assert!(w.range_in_bound(12, 3));
    assert!(w.range_in_bound(0, 3));
    assert!(!w.range_in_bound(5, 2));
}

#[test]
fn receive_window() {
    let mut io = Io::new();
    assert_eq!(io.recv_window(), Some(MAX_DATA));
    io.on_received(&frame(2, 0, &[0; 16]), &vec![]);
    assert_eq!(io.recv_window(), Some(MAX_DATA - 24));
    // less than two maximal frames free, and a whole header waiting: read nothing yet
    io.on_received(&vec![0u8; MAX_DATA - 100_000 - 24], &vec![]);
    assert_eq!(io.recv_window(), None);
    let reg = Registry::new();
    assert!(matches!(io.poll_recv(&reg, 5, &[0]), RecvStep::Unknown(2)));
    // the header is held and its body is there: still nothing to read
    assert_eq!(io.recv_window(), None);
}

#[test]
fn send_steps() {
    let mut io = Io::new();
    let mut reg = Registry::new();
    assert_eq!(io.flush_step(), FlushStep::Done);
    assert_eq!(io.send_attempt(&mut reg, object::from_id(2), 0, &vec![Arg::Uint(UInt(1))]), SendAttempt::Queued);
    assert_eq!(io.flush_step(), FlushStep::Drive);
    // no other sender: the last sender flushes
    assert_eq!(after_send(&mut reg, &io, 1), AfterSend::Flush);
    reg.register_send(5);
    reg.register_recv(2, 9, vec![0]);
    assert_eq!(after_send(&mut reg, &io, 1), AfterSend::Woke { sender: 5, locked: None, receiver: Some(9) });
    io.on_sent(12, 0);
    assert_eq!(after_send(&mut reg, &io, 1), AfterSend::Done);
    io.on_send_closed();
    assert_eq!(io.send_attempt(&mut reg, object::from_id(2), 0, &vec![]), SendAttempt::Closed(None));
    reg.register_send(41);
    reg.register_send_locked(42);
    assert_eq!(io.send_attempt(&mut reg, object::from_id(2), 0, &vec![]), SendAttempt::Closed(Some(42)));
    assert_eq!(io.send_attempt(&mut reg, object::from_id(2), 0, &vec![]), SendAttempt::Closed(Some(41)));
    let big = vec![Arg::Array(Array { data: vec![0; 70_000] })];
    let mut io = Io::new();
    assert_eq!(io.send_attempt(&mut reg, object::from_id(2), 0, &big), SendAttempt::TooLarge);
    assert_eq!(io.tx_msg_buf(object::from_id(2), 0, &vec![]), Ok(()));
    io.on_send_closed();
    assert_eq!(io.flush_step(), FlushStep::Closed);
}

#[test]
fn wakeups_after_a_delivery() {
    let mut reg = Registry::new();
    reg.register_recv(3, 30, vec![0]);
    reg.register_send_locked(77);
    assert_eq!(after_recv(&mut reg, 2, 20, vec![0]), (Some(77), None));
    assert_eq!(reg.lookup(2, 0), Some((20, Some(0))));
    assert_eq!(after_recv(&mut reg, 3, 30, vec![0]), (None, Some(20)));
}

#[test]
fn dynamic_new_id() {
    let mut reg = Registry::new();
    let d = reg.new_object_dyn("wl_seat", 7).unwrap();
    assert_eq!((d.id.id, d.version.0), (2, 7));
    assert_eq!(d.name.bytes, b"wl_seat");
    assert_eq!(reg.new_object(), Some(3));
    let mut out = Vec::new();
    let mut fds = Vec::new();
    d.write(&mut out, &mut fds);
    assert_eq!(&out[..12], &[8, 0, 0, 0, b'w', b'l', b'_', b's', b'e', b'a', b't', 0]);
}
