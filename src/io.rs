//! The duplex I/O engine: a data ring and a descriptor ring per direction, the interest mask,
//! and framing of messages into and out of the rings.
//!
//! The socket calls themselves are made by the caller, which hands the engine what the
//! kernel accepted or delivered.
use vstd::prelude::*;
use crate::display::error;
use crate::message::{
    Arg, HEADER_LEN, all_valid, args_len, dec_header, enc_all, enc_header, fds_all, message_header,
    values, write_args,
};
use crate::primitives::{Value, object};
use crate::registry::{RecvEntry, Registry, fd_count_of, recver_to_wake};
use crate::ring::{Cursor, RingBuf};
use crate::wire::Error;

verus! {

broadcast use crate::wire::lemma_le_bytes_len;

/// Largest frame the protocol allows.
pub const WAYLAND_MAX_MESSAGE_LEN: usize = 65536;

/// Size of each data ring: room for several maximal frames.
pub const MAX_DATA: usize = 262144;

/// Size of each descriptor ring.
pub const FD_SLOTS: usize = 1024;

/// Most descriptors passed in one control message.
pub const MAX_FDS: usize = 252;

/// What the engine waits for: readable, writable, and the terminal closed states.
#[derive(Clone, Copy, Debug, PartialEq, Eq, Structural)]
pub struct Interest {
    pub recv: bool,
    pub send: bool,
    pub recv_closed: bool,
    pub send_closed: bool,
}

/// Saved positions of both rings of a direction.
#[derive(Clone, Copy, Debug, PartialEq, Eq, Structural)]
pub struct IoBuf {
    pub da: Cursor,
    pub fd: Cursor,
}

/// One direction: payload bytes and descriptors.
pub struct BufDir {
    pub da: RingBuf<u8>,
    pub fd: RingBuf<i32>,
}

impl BufDir {
    pub open spec fn wf(&self) -> bool {
        &&& self.da.wf()
        &&& self.fd.wf()
        &&& self.da.cap() == MAX_DATA
        &&& self.fd.cap() == FD_SLOTS
    }

    pub fn new() -> (r: BufDir)
        ensures
            r.wf(),
            r.da.view().len() == 0,
            r.fd.view().len() == 0,
    {
        BufDir { da: RingBuf::new(MAX_DATA, 0u8), fd: RingBuf::new(FD_SLOTS, -1i32) }
    }

    /// No payload bytes: nothing can be sent, since a control message needs data with it.
    pub fn is_empty(&self) -> (r: bool)
        requires
            self.wf(),
        ensures
            r == (self.da.view().len() == 0),
    {
        self.da.is_empty()
    }

    pub fn save_cursor(&self) -> (r: IoBuf)
        ensures
            r.da == self.da.cursor(),
            r.fd == self.fd.cursor(),
    {
        IoBuf { da: self.da.save_cursor(), fd: self.fd.save_cursor() }
    }

    /// Puts both rings back where `c` says.
    pub fn restore_cursor(&mut self, c: IoBuf)
        requires
            c.da.start <= c.da.end <= old(self).da.cap(),
            c.fd.start <= c.fd.end <= old(self).fd.cap(),
        ensures
            final(self).da.view() == old(self).da.region(c.da),
            final(self).fd.view() == old(self).fd.region(c.fd),
            final(self).da.storage() == old(self).da.storage(),
            final(self).fd.storage() == old(self).fd.storage(),
            final(self).da.cap() == old(self).da.cap(),
            final(self).fd.cap() == old(self).fd.cap(),
            final(self).da.wf(),
            final(self).fd.wf(),
    {
        self.da.restore_cursor(c.da);
        self.fd.restore_cursor(c.fd);
    }
}

/// Why a message could not be queued.
#[derive(Clone, Copy, Debug, PartialEq, Eq, Structural)]
pub enum TxError {
    /// The frame would exceed the 16-bit length field.
    TooLarge,
    /// Not enough free bytes or descriptor slots in the tx rings; drive I/O and retry.
    NoRoom,
}

/// The engine state shared by all objects of a connection.
pub struct Io {
    pub tx: BufDir,
    pub rx: BufDir,
    pub interest: Interest,
    /// Header of the next incoming frame, read but not yet claimed.
    pub rx_hdr: Option<message_header>,
    /// The bytes of that header as they came in.
    pub rx_hdr_bytes: Ghost<Seq<u8>>,
}

impl Io {
    pub open spec fn wf(&self) -> bool {
        &&& self.tx.wf()
        &&& self.rx.wf()
        &&& match self.rx_hdr {
            None => self.rx_hdr_bytes@.len() == 0,
            Some(h) => {
                &&& self.rx_hdr_bytes@.len() == HEADER_LEN
                &&& dec_header(self.rx_hdr_bytes@) == Ok::<(u32, u16, u16), error>(
                    (h.object_id.id, h.datalen, h.opcode),
                )
            },
        }
    }

    /// Incoming bytes not yet handed to any object: a cached header, then the rx ring.
    pub open spec fn pending(&self) -> Seq<u8> {
        self.rx_hdr_bytes@ + self.rx.da.view()
    }

    pub fn new() -> (r: Io)
        ensures
            r.wf(),
            r.tx.da.view().len() == 0,
            r.tx.fd.view().len() == 0,
            r.pending().len() == 0,
            r.rx.fd.view().len() == 0,
            r.interest == (Interest { recv: true, send: false, recv_closed: false, send_closed: false }),
    {
        Io {
            tx: BufDir::new(),
            rx: BufDir::new(),
            interest: Interest { recv: true, send: false, recv_closed: false, send_closed: false },
            rx_hdr: None,
            rx_hdr_bytes: Ghost(Seq::empty()),
        }
    }

    /// Readiness to wait for: (readable, writable), or `None` when there is nothing to wait for.
    pub fn query_interest(&self) -> (r: Option<(bool, bool)>)
        ensures
            r == (if self.interest.recv || self.interest.send {
                Some((self.interest.recv, self.interest.send))
            } else {
                None
            }),
    {
        if self.interest.recv || self.interest.send {
            Some((self.interest.recv, self.interest.send))
        } else {
            None
        }
    }

    /// Frames a message for `object_id` into the tx rings: the header, whose length field is
    /// eight plus the body length, then the body; its descriptors go to the descriptor ring.
    /// Nothing is written unless the whole frame and all its descriptors fit.
    pub fn tx_msg_buf(&mut self, object_id: object, opcode: u16, args: &Vec<Arg>) -> (r: Result<(), TxError>)
        requires
            old(self).wf(),
            object_id.id != 0,
            all_valid(values(args@)),
            args@.len() <= 0xffff_ffff,
        ensures
            final(self).wf(),
            final(self).rx == old(self).rx,
            final(self).rx_hdr == old(self).rx_hdr,
            final(self).rx_hdr_bytes == old(self).rx_hdr_bytes,
            final(self).interest == (Interest { send: !old(self).interest.send_closed || old(self).interest.send, ..old(self).interest }),
            old(self).tx.da.view().len() % 4 == 0 ==> final(self).tx.da.view().len() % 4 == 0,
            ({
                let body = enc_all(values(args@));
                let fds = fds_all(values(args@));
                let frame = enc_header(object_id.id, (HEADER_LEN + body.len()) as u16, opcode) + body;
                &&& body.len() + HEADER_LEN > 65535 ==> r == Err::<(), TxError>(TxError::TooLarge)
                &&& body.len() + HEADER_LEN <= 65535 && old(self).tx.da.view().len() + frame.len() <= MAX_DATA
                    && old(self).tx.fd.view().len() + fds.len() <= FD_SLOTS ==> {
                    &&& r is Ok
                    &&& final(self).tx.da.view() == old(self).tx.da.view() + frame
                    &&& final(self).tx.fd.view() == old(self).tx.fd.view() + fds
                }
                &&& body.len() + HEADER_LEN <= 65535 && !(old(self).tx.da.view().len() + frame.len() <= MAX_DATA
                    && old(self).tx.fd.view().len() + fds.len() <= FD_SLOTS) ==> r == Err::<(), TxError>(TxError::NoRoom)
                &&& r is Err ==> final(self).tx.da.view() == old(self).tx.da.view()
                    && final(self).tx.fd.view() == old(self).tx.fd.view()
            }),
    {
        if !self.interest.send_closed {
            self.interest.send = true;
        }
        let body_len = args_len(args);
        if body_len > 65527 {
            return Err(TxError::TooLarge);
        }
        let hdr = message_header { object_id, datalen: (body_len + 8) as u16, opcode };
        let mut frame: Vec<u8> = Vec::new();
        let mut fds: Vec<i32> = Vec::new();
        hdr.write(&mut frame);
        write_args(args, &mut frame, &mut fds);
        assert(frame@ =~= enc_header(object_id.id, (HEADER_LEN + enc_all(values(args@)).len()) as u16, opcode) + enc_all(values(args@)));
        assert(fds@ =~= fds_all(values(args@)));
        if frame.len() > self.tx.da.free_space() || fds.len() > self.tx.fd.free_space() {
            return Err(TxError::NoRoom);
        }
        proof {
            crate::message::lemma_body_aligned(values(args@));
        }
        self.tx.da.push_slice(frame.as_slice());
        self.tx.fd.push_slice(fds.as_slice());
        Ok(())
    }

    /// Takes a body of `data_len` bytes and `fd_count` descriptors off the rx rings when both
    /// are there; otherwise leaves the rings as they were and asks to receive.
    pub fn rx_msg_buf(&mut self, data_len: u16, fd_count: usize) -> (r: Option<(Vec<u8>, Vec<i32>)>)
        requires
            old(self).wf(),
        ensures
            final(self).wf(),
            final(self).tx == old(self).tx,
            final(self).rx_hdr == old(self).rx_hdr,
            final(self).rx_hdr_bytes == old(self).rx_hdr_bytes,
            final(self).rx.da.storage() == old(self).rx.da.storage(),
            final(self).rx.fd.storage() == old(self).rx.fd.storage(),
            data_len <= old(self).rx.da.view().len() && fd_count <= old(self).rx.fd.view().len() ==> {
                &&& r matches Some((d, f)) && d@ == old(self).rx.da.view().take(data_len as int)
                    && f@ == old(self).rx.fd.view().take(fd_count as int)
                &&& final(self).rx.da.view() == old(self).rx.da.view().skip(data_len as int)
                &&& final(self).rx.fd.view() == old(self).rx.fd.view().skip(fd_count as int)
                &&& final(self).interest == old(self).interest
            },
            !(data_len <= old(self).rx.da.view().len() && fd_count <= old(self).rx.fd.view().len()) ==> {
                &&& r is None
                &&& final(self).rx.da.view() == old(self).rx.da.view()
                &&& final(self).rx.fd.view() == old(self).rx.fd.view()
                &&& final(self).interest == (Interest { recv: !old(self).interest.recv_closed || old(self).interest.recv, ..old(self).interest })
            },
    {
        let cursor = self.rx.save_cursor();
        proof {
            self.rx.da.lemma_view_is_region();
            self.rx.fd.lemma_view_is_region();
        }
        match self.rx.da.pop_front(data_len as usize) {
            Some(da) => match self.rx.fd.pop_front(fd_count) {
                Some(fd) => Some((da, fd)),
                None => {
                    self.rx.restore_cursor(cursor);
                    if !self.interest.recv_closed {
                        self.interest.recv = true;
                    }
                    None
                },
            },
            None => {
                if !self.interest.recv_closed {
                    self.interest.recv = true;
                }
                None
            },
        }
    }
}

/// A frame as queued for sending announces, in its length field, eight bytes of header plus
/// the body: reading the header back gives that length, the ID and the opcode.
pub proof fn lemma_frame_length(object_id: u32, opcode: u16, vs: Seq<Value>, rest: Seq<u8>)
    requires
        object_id != 0,
        enc_all(vs).len() + HEADER_LEN <= 65535,
    ensures
        ({
            let len = (HEADER_LEN + enc_all(vs).len()) as u16;
            &&& len as nat == HEADER_LEN + enc_all(vs).len()
            &&& dec_header(enc_header(object_id, len, opcode) + enc_all(vs) + rest)
                == Ok::<(u32, u16, u16), error>((object_id, len, opcode))
        }),
{
    let len = (HEADER_LEN + enc_all(vs).len()) as u16;
    assert(enc_header(object_id, len, opcode) + enc_all(vs) + rest =~= enc_header(object_id, len, opcode) + (enc_all(vs) + rest));
    crate::message::lemma_header_round_trip(object_id, len, opcode, enc_all(vs) + rest);
}

/// What one poll of an object's receive decided.
pub enum RecvStep {
    /// The next frame is this object's: its header, body bytes and descriptors.
    Deliver(message_header, Vec<u8>, Vec<i32>),
    /// Not enough has arrived yet: drive I/O and poll again.
    NeedIo,
    /// The next frame is complete and belongs to another waiting object: wake this waker,
    /// register as a receiver and suspend.
    Dispatch(u64),
    /// The next frame is for an ID that nobody waits on: register and suspend.
    Unknown(u32),
    /// The next frame is malformed.
    Protocol(Error),
}

/// What a poll of a receive decides from the pending input alone.
pub enum Decision {
    /// Hand over the next frame: its body length and descriptor count.
    Deliver(nat, nat),
    /// Wake the waiting object that owns the next frame.
    Dispatch(u64),
    /// The next frame is for an ID nobody waits on.
    Unknown(u32),
    /// Wait for more input.
    NeedIo,
    /// The next frame is malformed.
    Protocol,
}

/// The decision of a poll by object `self_id` (descriptor table `table`), given the pending
/// bytes `p`, `nfds` pending descriptors and the waiting receivers `rs`: wait until a header
/// is there; reject a header with a null ID, a length below the header's, or an opcode
/// without a descriptor count; once the whole body and its descriptors are there, deliver it
/// to its addressee, or name the addressee's waker when that is another waiting object.
pub open spec fn recv_decision(p: Seq<u8>, nfds: nat, rs: Seq<RecvEntry>, self_id: u32, table: Seq<usize>) -> Decision {
    if p.len() < HEADER_LEN {
        Decision::NeedIo
    } else {
        match dec_header(p) {
            Err(_) => Decision::Protocol,
            Ok((id, len, op)) => if len < HEADER_LEN {
                Decision::Protocol
            } else if id == self_id {
                match fd_count_of(table, op) {
                    None => Decision::Protocol,
                    Some(n) => if len <= p.len() && n <= nfds {
                        Decision::Deliver((len - HEADER_LEN) as nat, n as nat)
                    } else {
                        Decision::NeedIo
                    },
                }
            } else if exists|i: int| 0 <= i < rs.len() && #[trigger] rs[i].id == id {
                let i = choose|i: int| 0 <= i < rs.len() && #[trigger] rs[i].id == id;
                match fd_count_of(rs[i].fd_counts@, op) {
                    None => Decision::Protocol,
                    Some(n) => if len <= p.len() && n <= nfds {
                        Decision::Dispatch(rs[i].waker)
                    } else {
                        Decision::NeedIo
                    },
                }
            } else {
                Decision::Unknown(id)
            },
        }
    }
}

/// The step `r` carries out decision `d`.
pub open spec fn step_is(r: RecvStep, d: Decision) -> bool {
    match d {
        Decision::Deliver(b, n) => r matches RecvStep::Deliver(_, body, fds) && body@.len() == b && fds@.len() == n,
        Decision::Dispatch(w) => r matches RecvStep::Dispatch(x) && x == w,
        Decision::Unknown(id) => r matches RecvStep::Unknown(x) && x == id,
        Decision::NeedIo => r is NeedIo,
        Decision::Protocol => r is Protocol,
    }
}

/// Bytes of a frame for object `id` with opcode `op` and body `body`.
pub open spec fn frame_bytes(id: u32, op: u16, body: Seq<u8>) -> Seq<u8> {
    enc_header(id, (HEADER_LEN + body.len()) as u16, op) + body
}

/// Frames back to back on the wire, each given as (object ID, opcode, body).
pub open spec fn stream(fs: Seq<(u32, u16, Seq<u8>)>) -> Seq<u8>
    decreases fs.len(),
{
    if fs.len() == 0 {
        Seq::empty()
    } else {
        frame_bytes(fs[0].0, fs[0].1, fs[0].2) + stream(fs.skip(1))
    }
}

/// Receivers with pairwise distinct IDs.
pub open spec fn unique_ids(rs: Seq<RecvEntry>) -> bool {
    forall|i: int, j: int| 0 <= i < j < rs.len() ==> rs[i].id != rs[j].id
}

/// Routing of frames that arrived back to back: the frame at the head goes to its
/// addressee. A poll by the addressee delivers exactly that frame's body and descriptors,
/// and what stays pending is the stream of the frames after it, in wire order. A poll by any
/// other object names the waker under which the addressee waits, and a poll that does not
/// deliver consumes nothing. So each waiting object receives its frames in wire order, and
/// each frame reaches its addressee on the addressee's first poll after it came to the head,
/// with no further input needed.
pub proof fn lemma_stream_routing(
    fs: Seq<(u32, u16, Seq<u8>)>,
    nfds: nat,
    rs: Seq<RecvEntry>,
    s: u32,
    table: Seq<usize>,
    n: usize,
)
    requires
        fs.len() > 0,
        fs[0].0 != 0,
        fs[0].2.len() + HEADER_LEN <= 65535,
        unique_ids(rs),
        n <= nfds,
        s == fs[0].0 ==> fd_count_of(table, fs[0].1) == Some(n),
        s != fs[0].0 ==> exists|i: int| 0 <= i < rs.len() && #[trigger] rs[i].id == fs[0].0
            && fd_count_of(rs[i].fd_counts@, fs[0].1) == Some(n),
    ensures
        s == fs[0].0 ==> recv_decision(stream(fs), nfds, rs, s, table) == Decision::Deliver(fs[0].2.len(), n as nat),
        s != fs[0].0 ==> forall|i: int| 0 <= i < rs.len() && #[trigger] rs[i].id == fs[0].0
            ==> recv_decision(stream(fs), nfds, rs, s, table) == Decision::Dispatch(rs[i].waker),
        stream(fs).skip(HEADER_LEN + fs[0].2.len()) == stream(fs.skip(1)),
{
    let (id, op, body) = fs[0];
    let rest = stream(fs.skip(1));
    let dl = (HEADER_LEN + body.len()) as u16;
    let p = stream(fs);
    assert(p =~= enc_header(id, dl, op) + (body + rest));
    crate::message::lemma_header_round_trip(id, dl, op, body + rest);
    assert(p.skip(HEADER_LEN + body.len()) =~= rest);
    if s != id {
        let k = choose|i: int| 0 <= i < rs.len() && #[trigger] rs[i].id == id
            && fd_count_of(rs[i].fd_counts@, op) == Some(n);
        let c = choose|i: int| 0 <= i < rs.len() && #[trigger] rs[i].id == id;
        assert(c == k) by {
            if c < k {
                assert(rs[c].id != rs[k].id);
            } else if k < c {
                assert(rs[k].id != rs[c].id);
            }
        }
        assert forall|i: int| 0 <= i < rs.len() && #[trigger] rs[i].id == id implies recv_decision(p, nfds, rs, s, table)
            == Decision::Dispatch(rs[i].waker) by {
            if i < k {
                assert(rs[i].id != rs[k].id);
            } else if k < i {
                assert(rs[k].id != rs[i].id);
            }
        }
    }
}

/// A frame header depends on its first eight bytes only.
proof fn lemma_dec_header_prefix(a: Seq<u8>, b: Seq<u8>)
    requires
        a.len() >= 8,
        b.len() >= 8,
        a.subrange(0, 8) == b.subrange(0, 8),
    ensures
        dec_header(a) == dec_header(b),
{
    reveal(crate::wire::le_word);
    assert(a[0] == a.subrange(0, 8)[0] && b[0] == b.subrange(0, 8)[0]);
    assert(a[1] == a.subrange(0, 8)[1] && b[1] == b.subrange(0, 8)[1]);
    assert(a[2] == a.subrange(0, 8)[2] && b[2] == b.subrange(0, 8)[2]);
    assert(a[3] == a.subrange(0, 8)[3] && b[3] == b.subrange(0, 8)[3]);
    assert(a.skip(4)[0] == a.subrange(0, 8)[4] && b.skip(4)[0] == b.subrange(0, 8)[4]);
    assert(a.skip(4)[1] == a.subrange(0, 8)[5] && b.skip(4)[1] == b.subrange(0, 8)[5]);
    assert(a.skip(4)[2] == a.subrange(0, 8)[6] && b.skip(4)[2] == b.subrange(0, 8)[6]);
    assert(a.skip(4)[3] == a.subrange(0, 8)[7] && b.skip(4)[3] == b.subrange(0, 8)[7]);
}

impl Io {
    /// One poll of the receive of object `self_id`, whose incoming opcodes carry `fd_counts`
    /// descriptors each.
    ///
    /// Only a delivery consumes input, and it consumes exactly the next frame, which is
    /// addressed to `self_id`; every other outcome leaves the pending bytes and descriptors
    /// as they were, so a later poll of any object sees the same frames.
    pub fn poll_recv(&mut self, reg: &Registry, self_id: u32, fd_counts: &[usize]) -> (r: RecvStep)
        requires
            old(self).wf(),
            reg.wf(),
        ensures
            final(self).wf(),
            final(self).tx == old(self).tx,
            final(self).interest.send == old(self).interest.send,
            final(self).interest.recv_closed == old(self).interest.recv_closed,
            final(self).interest.send_closed == old(self).interest.send_closed,
            step_is(r, recv_decision(old(self).pending(), old(self).rx.fd.view().len(), reg.receivers(), self_id, fd_counts@)),
            match r {
                RecvStep::Deliver(h, d, f) => {
                    let p = old(self).pending();
                    &&& h.object_id.id == self_id
                    &&& p.len() >= 8 + d@.len()
                    &&& dec_header(p) == Ok::<(u32, u16, u16), error>((self_id, h.datalen, h.opcode))
                    &&& d@.len() + 8 == h.datalen
                    &&& d@ == p.subrange(8, 8 + d@.len() as int)
                    &&& final(self).pending() == p.skip(8 + d@.len() as int)
                    &&& fd_count_of(fd_counts@, h.opcode) == Some(f@.len() as usize)
                    &&& old(self).rx.fd.view() == f@ + final(self).rx.fd.view()
                    &&& final(self).rx_hdr is None
                },
                RecvStep::Dispatch(w) => {
                    &&& final(self).pending() == old(self).pending()
                    &&& final(self).rx.fd.view() == old(self).rx.fd.view()
                    &&& final(self).rx_hdr matches Some(h) && h.object_id.id != self_id && exists|i: int|
                        0 <= i < reg.receivers().len() && (#[trigger] reg.receivers()[i]).id == h.object_id.id
                        && reg.receivers()[i].waker == w
                },
                RecvStep::Unknown(id) => {
                    &&& final(self).pending() == old(self).pending()
                    &&& final(self).rx.fd.view() == old(self).rx.fd.view()
                    &&& final(self).rx_hdr matches Some(h) && h.object_id.id == id && id != self_id
                    &&& !reg.has(id)
                },
                _ => {
                    &&& final(self).pending() == old(self).pending()
                    &&& final(self).rx.fd.view() == old(self).rx.fd.view()
                },
            },
    {
        let ghost pend = self.pending();
        let ghost fds0 = self.rx.fd.view();
        if self.rx_hdr.is_none() {
            let c = self.rx.save_cursor();
            proof {
                self.rx.da.lemma_view_is_region();
                self.rx.fd.lemma_view_is_region();
            }
            match self.rx_msg_buf(HEADER_LEN, 0) {
                None => {
                    return RecvStep::NeedIo;
                },
                Some((hb, _)) => {
                    let mut p: usize = 0;
                    proof {
                        assert(hb@.skip(0) =~= hb@);
                        assert(hb@.subrange(0, 8) =~= pend.subrange(0, 8));
                        lemma_dec_header_prefix(pend, hb@);
                    }
                    match message_header::read(hb.as_slice(), &mut p) {
                        Err(e) => {
                            self.rx.restore_cursor(c);
                            return RecvStep::Protocol(e);
                        },
                        Ok(h) => {
                            if h.datalen < HEADER_LEN {
                                self.rx.restore_cursor(c);
                                return RecvStep::Protocol(
                                    error::invalid_method.msg("frame shorter than its header"),
                                );
                            }
                            self.rx_hdr = Some(h);
                            self.rx_hdr_bytes = Ghost(hb@);
                            assert(self.pending() =~= pend);
                            assert(self.rx.fd.view() =~= fds0);
                        },
                    }
                },
            }
        }
        let h = match self.rx_hdr {
            Some(h) => h,
            None => {
                return RecvStep::NeedIo;
            },
        };
        proof {
            assert(self.pending().subrange(0, 8) =~= self.rx_hdr_bytes@.subrange(0, 8));
            lemma_dec_header_prefix(self.pending(), self.rx_hdr_bytes@);
        }
        if h.datalen < HEADER_LEN {
            return RecvStep::Protocol(error::invalid_method.msg("frame shorter than its header"));
        }
        let body_len = h.datalen - HEADER_LEN;
        if h.object_id.id == self_id {
            let n = if (h.opcode as usize) < fd_counts.len() {
                fd_counts[h.opcode as usize]
            } else {
                return RecvStep::Protocol(error::invalid_method.msg("unknown opcode"));
            };
            let ghost before = self.pending();
            let ghost hbytes = self.rx_hdr_bytes@;
            match self.rx_msg_buf(body_len, n) {
                Some((d, f)) => {
                    self.rx_hdr = None;
                    self.rx_hdr_bytes = Ghost(Seq::empty());
                    assert(d@ =~= before.subrange(8, 8 + d@.len() as int));
                    assert(self.pending() =~= before.skip(8 + d@.len() as int));
                    RecvStep::Deliver(h, d, f)
                },
                None => RecvStep::NeedIo,
            }
        } else {
            let looked = reg.lookup(h.object_id.id, h.opcode);
            proof {
                let rs = reg.receivers();
                let id = h.object_id.id;
                if let Some((w, n)) = looked {
                    let j = choose|j: int| 0 <= j < rs.len() && {
                        let e = #[trigger] rs[j];
                        e.id == id && e.waker == w && n == fd_count_of(e.fd_counts@, h.opcode)
                    };
                    assert(rs[j].id == id);
                    let i = choose|i: int| 0 <= i < rs.len() && #[trigger] rs[i].id == id;
                    reg.lemma_unique(i, j);
                } else {
                    assert(!(exists|i: int| 0 <= i < rs.len() && #[trigger] rs[i].id == id));
                }
            }
            match looked {
                None => RecvStep::Unknown(h.object_id.id),
                Some((w, n)) => match n {
                    None => RecvStep::Protocol(error::invalid_method.msg("unknown opcode")),
                    Some(n) => {
                        let c = self.rx.save_cursor();
                        proof {
                            self.rx.da.lemma_view_is_region();
                            self.rx.fd.lemma_view_is_region();
                        }
                        match self.rx_msg_buf(body_len, n) {
                            Some(_) => {
                                self.rx.restore_cursor(c);
                                RecvStep::Dispatch(w)
                            },
                            None => RecvStep::NeedIo,
                        }
                    },
                },
            }
        }
    }
}

impl Io {
    /// Whether to read from the socket at all: not once the receive side is closed, in which
    /// case the interest in reading is dropped.
    pub fn recv_wanted(&mut self) -> (r: bool)
        ensures
            r == !old(self).interest.recv_closed,
            final(self).interest == (if old(self).interest.recv_closed {
                Interest { recv: false, ..old(self).interest }
            } else {
                old(self).interest
            }),
            final(self).tx == old(self).tx,
            final(self).rx == old(self).rx,
            final(self).rx_hdr == old(self).rx_hdr,
            final(self).rx_hdr_bytes == old(self).rx_hdr_bytes,
    {
        if self.interest.recv_closed {
            self.interest.recv = false;
            false
        } else {
            true
        }
    }

    /// Room for the next receive: free data bytes and free descriptor slots.
    pub fn recv_room(&self) -> (r: (usize, usize))
        requires
            self.wf(),
        ensures
            r.0 == MAX_DATA - self.rx.da.view().len(),
            r.1 == FD_SLOTS - self.rx.fd.view().len(),
    {
        (self.rx.da.free_space(), self.rx.fd.free_space())
    }

    /// Takes in what one receive delivered: the bytes, and the descriptor lists of its
    /// SCM_RIGHTS control messages in order. The first list is kept; any later one is
    /// discarded, and their number is returned.
    pub fn on_received(&mut self, data: &[u8], rights: &Vec<Vec<i32>>) -> (r: usize)
        requires
            old(self).wf(),
            old(self).rx.da.view().len() + data@.len() <= MAX_DATA,
            rights@.len() > 0 ==> old(self).rx.fd.view().len() + rights@[0]@.len() <= FD_SLOTS,
        ensures
            final(self).wf(),
            final(self).tx == old(self).tx,
            final(self).interest == old(self).interest,
            final(self).rx_hdr == old(self).rx_hdr,
            final(self).rx_hdr_bytes == old(self).rx_hdr_bytes,
            final(self).rx.da.view() == old(self).rx.da.view() + data@,
            final(self).pending() == old(self).pending() + data@,
            rights@.len() > 0 ==> final(self).rx.fd.view() == old(self).rx.fd.view() + rights@[0]@
                && r == rights@.len() - 1,
            rights@.len() == 0 ==> final(self).rx.fd.view() == old(self).rx.fd.view() && r == 0,
    {
        self.rx.da.push_slice(data);
        assert(self.pending() =~= old(self).pending() + data@);
        if rights.len() == 0 {
            0
        } else {
            self.rx.fd.push_slice(rights[0].as_slice());
            rights.len() - 1
        }
    }

    /// The peer closed its sending side: nothing more will be read.
    pub fn on_recv_closed(&mut self)
        ensures
            final(self).interest == (Interest { recv: false, recv_closed: true, ..old(self).interest }),
            final(self).tx == old(self).tx,
            final(self).rx == old(self).rx,
            final(self).rx_hdr == old(self).rx_hdr,
            final(self).rx_hdr_bytes == old(self).rx_hdr_bytes,
    {
        self.interest.recv = false;
        self.interest.recv_closed = true;
    }

    /// What the next send hands to the kernel: every queued byte, and the oldest queued
    /// descriptors, at most `MAX_FDS` of them. With nothing queued, or the send side closed,
    /// there is nothing to send and the interest in writing is dropped.
    pub fn send_plan(&mut self) -> (r: Option<(Vec<u8>, Vec<i32>)>)
        requires
            old(self).wf(),
        ensures
            final(self).wf(),
            final(self).tx == old(self).tx,
            final(self).rx == old(self).rx,
            final(self).rx_hdr == old(self).rx_hdr,
            final(self).rx_hdr_bytes == old(self).rx_hdr_bytes,
            old(self).tx.da.view().len() == 0 || old(self).interest.send_closed ==> r is None
                && final(self).interest == (Interest { send: false, ..old(self).interest }),
            !(old(self).tx.da.view().len() == 0 || old(self).interest.send_closed) ==> {
                &&& final(self).interest == old(self).interest
                &&& r matches Some((d, f)) && d@ == old(self).tx.da.view() && f@
                    == old(self).tx.fd.view().take(
                    if old(self).tx.fd.view().len() < MAX_FDS {
                        old(self).tx.fd.view().len() as int
                    } else {
                        MAX_FDS as int
                    },
                )
            },
    {
        if self.tx.da.is_empty() || self.interest.send_closed {
            self.interest.send = false;
            return None;
        }
        let n = self.tx.da.len();
        let nf = if self.tx.fd.len() < MAX_FDS { self.tx.fd.len() } else { MAX_FDS };
        let d = match self.tx.da.peek(n) {
            Some(d) => d,
            None => return None,
        };
        let f = match self.tx.fd.peek(nf) {
            Some(f) => f,
            None => return None,
        };
        assert(d@ =~= old(self).tx.da.view());
        Some((d, f))
    }

    /// The kernel took `sent` bytes and `fds_sent` descriptors of the plan. Returns whether
    /// bytes remain to be sent; when none remain the interest in writing is dropped.
    pub fn on_sent(&mut self, sent: usize, fds_sent: usize) -> (r: bool)
        requires
            old(self).wf(),
            sent <= old(self).tx.da.view().len(),
            fds_sent <= old(self).tx.fd.view().len(),
        ensures
            final(self).wf(),
            final(self).rx == old(self).rx,
            final(self).rx_hdr == old(self).rx_hdr,
            final(self).rx_hdr_bytes == old(self).rx_hdr_bytes,
            final(self).tx.da.view() == old(self).tx.da.view().skip(sent as int),
            final(self).tx.fd.view() == old(self).tx.fd.view().skip(fds_sent as int),
            r == (final(self).tx.da.view().len() > 0),
            final(self).interest == (if r { old(self).interest } else { Interest { send: false, ..old(self).interest } }),
    {
        self.tx.da.pop_front(sent);
        self.tx.fd.pop_front(fds_sent);
        if self.tx.da.is_empty() {
            self.interest.send = false;
            false
        } else {
            true
        }
    }

    /// The peer stopped taking data: nothing more will be sent.
    pub fn on_send_closed(&mut self)
        ensures
            final(self).interest == (Interest { send: false, send_closed: true, ..old(self).interest }),
            final(self).tx == old(self).tx,
            final(self).rx == old(self).rx,
            final(self).rx_hdr == old(self).rx_hdr,
            final(self).rx_hdr_bytes == old(self).rx_hdr_bytes,
    {
        self.interest.send = false;
        self.interest.send_closed = true;
    }
}

impl Io {
    /// How many bytes the next receive may take, or `None` when it should wait. While at
    /// least two maximal frames' worth of the rx ring is free, all free room may be filled.
    /// Below that, the receive takes only what completes the next header or, once a header
    /// is held, the next body; when that is already there it waits, so that the frame is
    /// consumed first.
    pub fn recv_window(&self) -> (r: Option<usize>)
        requires
            self.wf(),
        ensures
            ({
                let have = self.rx.da.view().len();
                let free = MAX_DATA - have;
                &&& free >= 2 * WAYLAND_MAX_MESSAGE_LEN ==> r == Some(free as usize)
                &&& free < 2 * WAYLAND_MAX_MESSAGE_LEN ==> match self.rx_hdr {
                    None => if have >= HEADER_LEN {
                        r is None
                    } else {
                        r == Some((HEADER_LEN - have) as usize)
                    },
                    Some(h) => {
                        let body = if h.datalen >= HEADER_LEN { h.datalen - HEADER_LEN } else { 0 };
                        if body <= have {
                            r is None
                        } else {
                            r == Some((body - have) as usize)
                        }
                    },
                }
                &&& r matches Some(n) ==> n <= free
            }),
    {
        let have = self.rx.da.len();
        let free = self.rx.da.free_space();
        if free >= 2 * WAYLAND_MAX_MESSAGE_LEN {
            return Some(free);
        }
        match self.rx_hdr {
            None => if have >= HEADER_LEN as usize {
                None
            } else {
                Some(HEADER_LEN as usize - have)
            },
            Some(h) => {
                let body: usize = if h.datalen >= HEADER_LEN { (h.datalen - HEADER_LEN) as usize } else { 0 };
                if body <= have {
                    None
                } else {
                    Some(body - have)
                }
            },
        }
    }
}

/// Outcome of one attempt to queue a message.
#[derive(Clone, Copy, Debug, PartialEq, Eq, Structural)]
pub enum SendAttempt {
    /// The frame is in the tx rings.
    Queued,
    /// The send side is closed: nothing is queued, and the sender suspends so that error
    /// events can still arrive, handing over to the parked sender named here, if any.
    Closed(Option<u64>),
    /// Not enough room: drive I/O and try again, or park.
    NoRoom,
    /// The frame cannot be expressed.
    TooLarge,
}

/// What a sender does once its frame is queued.
#[derive(Clone, Copy, Debug, PartialEq, Eq, Structural)]
pub enum AfterSend {
    /// Another sender was waiting: wake it, and the receivers that `wake_recver` names.
    Woke { sender: u64, locked: Option<u64>, receiver: Option<u64> },
    /// This was the last sender and bytes are queued: it drives I/O until they are sent.
    Flush,
    /// Nothing left to do.
    Done,
}

/// What a flush does next.
#[derive(Clone, Copy, Debug, PartialEq, Eq, Structural)]
pub enum FlushStep {
    /// The tx ring is empty.
    Done,
    /// Bytes remain but the send side is closed.
    Closed,
    /// Drive I/O and look again.
    Drive,
}

impl Io {
    /// Tries to queue a message for `object_id`, unless the send side is closed; then the
    /// next parked sender (the locked slot first, then the oldest queued) is taken to be woken.
    pub fn send_attempt(&mut self, reg: &mut Registry, object_id: object, opcode: u16, args: &Vec<Arg>) -> (r: SendAttempt)
        requires
            old(self).wf(),
            old(reg).wf(),
            object_id.id != 0,
            all_valid(values(args@)),
            args@.len() <= 0xffff_ffff,
        ensures
            final(self).wf(),
            final(reg).wf(),
            final(self).rx == old(self).rx,
            final(self).rx_hdr == old(self).rx_hdr,
            old(self).interest.send_closed ==> {
                &&& *final(self) == *old(self)
                &&& final(reg).receivers() == old(reg).receivers()
                &&& final(reg).next_id() == old(reg).next_id()
                &&& final(reg).sender_locked() is None
                &&& old(reg).sender_locked() is Some ==> r == SendAttempt::Closed(old(reg).sender_locked())
                    && final(reg).sender_queue() == old(reg).sender_queue()
                &&& old(reg).sender_locked() is None && old(reg).sender_queue().len() > 0 ==> r
                    == SendAttempt::Closed(Some(old(reg).sender_queue()[0])) && final(reg).sender_queue()
                    == old(reg).sender_queue().skip(1)
                &&& old(reg).sender_locked() is None && old(reg).sender_queue().len() == 0 ==> r
                    == SendAttempt::Closed(None) && final(reg).sender_queue() == old(reg).sender_queue()
            },
            !old(self).interest.send_closed ==> {
                let body = enc_all(values(args@));
                let frame = enc_header(object_id.id, (HEADER_LEN + body.len()) as u16, opcode) + body;
                &&& *final(reg) == *old(reg)
                &&& r == SendAttempt::Queued ==> final(self).tx.da.view() == old(self).tx.da.view() + frame
                    && final(self).tx.fd.view() == old(self).tx.fd.view() + fds_all(values(args@))
                &&& r != SendAttempt::Queued ==> final(self).tx.da.view() == old(self).tx.da.view()
                    && final(self).tx.fd.view() == old(self).tx.fd.view()
                &&& (r == SendAttempt::TooLarge) == (body.len() + HEADER_LEN > 65535)
                &&& (r == SendAttempt::Queued) == (body.len() + HEADER_LEN <= 65535
                    && old(self).tx.da.view().len() + frame.len() <= MAX_DATA
                    && old(self).tx.fd.view().len() + fds_all(values(args@)).len() <= FD_SLOTS)
                &&& r != SendAttempt::Queued && r != SendAttempt::TooLarge ==> r == SendAttempt::NoRoom
                &&& final(self).interest.send
            },
    {
        if self.interest.send_closed {
            return SendAttempt::Closed(reg.wake_sender());
        }
        match self.tx_msg_buf(object_id, opcode, args) {
            Ok(()) => SendAttempt::Queued,
            Err(TxError::NoRoom) => SendAttempt::NoRoom,
            Err(TxError::TooLarge) => SendAttempt::TooLarge,
        }
    }

    /// The next step of a flush.
    pub fn flush_step(&self) -> (r: FlushStep)
        requires
            self.wf(),
        ensures
            self.tx.da.view().len() == 0 ==> r == FlushStep::Done,
            self.tx.da.view().len() > 0 && self.interest.send_closed ==> r == FlushStep::Closed,
            self.tx.da.view().len() > 0 && !self.interest.send_closed ==> r == FlushStep::Drive,
    {
        if self.tx.is_empty() {
            FlushStep::Done
        } else if self.interest.send_closed {
            FlushStep::Closed
        } else {
            FlushStep::Drive
        }
    }
}

/// After a frame is queued: hand over to the next waiting sender, and wake the receivers so
/// a pending reader keeps the pipeline going; with no sender waiting, the last sender
/// flushes what is queued. `current` is the waker of the task that queued.
pub fn after_send(reg: &mut Registry, io: &Io, current: u64) -> (r: AfterSend)
    requires
        old(reg).wf(),
        io.wf(),
    ensures
        final(reg).wf(),
        final(reg).receivers() == old(reg).receivers(),
        final(reg).next_id() == old(reg).next_id(),
        final(reg).sender_locked() is None,
        old(reg).sender_locked() matches Some(w) ==> r == (AfterSend::Woke {
            sender: w,
            locked: None,
            receiver: r->receiver,
        }) && final(reg).sender_queue() == old(reg).sender_queue(),
        old(reg).sender_locked() is None && old(reg).sender_queue().len() > 0 ==> r == (AfterSend::Woke {
            sender: old(reg).sender_queue()[0],
            locked: None,
            receiver: r->receiver,
        }) && final(reg).sender_queue() == old(reg).sender_queue().skip(1),
        old(reg).sender_locked() is None && old(reg).sender_queue().len() == 0 ==> final(reg).sender_queue()
            == old(reg).sender_queue() && r == (if io.tx.da.view().len() > 0 {
            AfterSend::Flush
        } else {
            AfterSend::Done
        }),
        r matches AfterSend::Woke { receiver, .. } ==> recver_to_wake(old(reg).receivers(), current, receiver),
{
    match reg.wake_sender() {
        Some(w) => {
            let (locked, receiver) = reg.wake_recver(current);
            AfterSend::Woke { sender: w, locked, receiver }
        },
        None => if io.tx.is_empty() {
            AfterSend::Done
        } else {
            AfterSend::Flush
        },
    }
}

/// After an object took a frame: it stays registered as a receiver under its current waker,
/// and the wakers to wake keep the pipeline going, the sender waiting in the locked slot and
/// the receiver with the smallest ID unless that is the current task.
pub fn after_recv(reg: &mut Registry, self_id: u32, current: u64, fd_counts: Vec<usize>) -> (r: (Option<u64>, Option<u64>))
    requires
        old(reg).wf(),
    ensures
        final(reg).wf(),
        final(reg).has(self_id),
        final(reg).sender_locked() is None,
        final(reg).sender_queue() == old(reg).sender_queue(),
        final(reg).next_id() == old(reg).next_id(),
        r.0 == old(reg).sender_locked(),
        recver_to_wake(final(reg).receivers(), current, r.1),
        old(reg).has(self_id) ==> final(reg).receivers().len() == old(reg).receivers().len() && forall|i: int|
            0 <= i < old(reg).receivers().len() ==> {
                &&& (#[trigger] final(reg).receivers()[i]).id == old(reg).receivers()[i].id
                &&& final(reg).receivers()[i].fd_counts@ == old(reg).receivers()[i].fd_counts@
                &&& final(reg).receivers()[i].waker == (if old(reg).receivers()[i].id == self_id {
                    current
                } else {
                    old(reg).receivers()[i].waker
                })
            },
        !old(reg).has(self_id) ==> final(reg).receivers().len() == old(reg).receivers().len() + 1
            && final(reg).receivers().take(old(reg).receivers().len() as int) == old(reg).receivers()
            && final(reg).receivers().last().id == self_id
            && final(reg).receivers().last().waker == current
            && final(reg).receivers().last().fd_counts@ == fd_counts@,
{
    reg.register_recv(self_id, current, fd_counts);
    reg.wake_recver(current)
}

} // verus!
