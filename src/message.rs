//! Messages: the frame header, and a body as the in-order concatenation of its fields.
use vstd::prelude::*;
use crate::display::error;
use crate::primitives::{
    Array, Fd, Fixed, Int, Kind, NewId, NewIdDyn, String, UInt, Value, dec, enc, enc_fds,
    kind_of, lemma_round_trip, lemma_word_prefix, object, outcome, read_nullable_object, read_nullable_string,
    MAX_BLOB, read_spec, valid, write_nullable_object, write_nullable_string,
};
use crate::wire::{Error, dec_word, le_bytes, read_word, write_word};

verus! {

broadcast use crate::wire::lemma_le_bytes_len;

/// Bytes of the frame header: object ID, then length and opcode in one word.
pub const HEADER_LEN: u16 = 8;

/// The header that starts every frame.
#[allow(non_camel_case_types)]
#[derive(Clone, Copy, Debug)]
pub struct message_header {
    pub object_id: object,
    /// Length of the whole frame, header included.
    pub datalen: u16,
    pub opcode: u16,
}

/// The second header word: length in the high half, opcode in the low half.
pub open spec fn size_opcode_word(datalen: u16, opcode: u16) -> u32 {
    (datalen as int * 65536 + opcode as int) as u32
}

/// Wire form of a header.
pub open spec fn enc_header(object_id: u32, datalen: u16, opcode: u16) -> Seq<u8> {
    le_bytes(object_id) + le_bytes(size_opcode_word(datalen, opcode))
}

/// A header at the front of `d`: a non-zero object ID, then length and opcode.
pub open spec fn dec_header(d: Seq<u8>) -> Result<(u32, u16, u16), error> {
    match dec_word(d) {
        Err(e) => Err(e),
        Ok(id) => if id == 0 {
            Err(error::invalid_method)
        } else {
            match dec_word(d.skip(4)) {
                Err(e) => Err(e),
                Ok(w) => Ok((id, (w / 65536) as u16, (w % 65536) as u16)),
            }
        },
    }
}

impl message_header {
    pub fn len(&self) -> (r: u32)
        ensures
            r == HEADER_LEN,
    {
        8
    }

    /// Length of the payload: the frame length less the header, wrapping below zero.
    pub fn content_len(&self) -> (r: u16)
        ensures
            self.datalen >= HEADER_LEN ==> r == self.datalen - HEADER_LEN,
            self.datalen < HEADER_LEN ==> r == self.datalen + 65536 - HEADER_LEN,
    {
        self.datalen.wrapping_sub(HEADER_LEN)
    }

    /// Reads a header at `*pos`; on failure the cursor stays.
    pub fn read(data: &[u8], pos: &mut usize) -> (r: Result<message_header, Error>)
        requires
            *old(pos) <= data@.len(),
        ensures
            match dec_header(data@.skip(*old(pos) as int)) {
                Ok((id, len, op)) => r is Ok && r->Ok_0.object_id.id == id && r->Ok_0.datalen
                    == len && r->Ok_0.opcode == op && *final(pos) == *old(pos) + 8,
                Err(e) => r is Err && r->Err_0.err == e && *final(pos) == *old(pos),
            },
    {
        let start = *pos;
        let ghost d = data@.skip(start as int);
        let no_fds: [i32; 0] = [];
        let mut fd_pos: usize = 0;
        let object_id = match object::read(data, pos, &no_fds, &mut fd_pos) {
            Ok(o) => o,
            Err(e) => return Err(e),
        };
        assert(data@.skip(*pos as int) =~= d.skip(4));
        let w = match read_word(data, pos) {
            Ok(w) => w,
            Err(e) => {
                *pos = start;
                return Err(e);
            },
        };
        Ok(message_header { object_id, datalen: (w / 65536) as u16, opcode: (w % 65536) as u16 })
    }

    pub fn write(&self, out: &mut Vec<u8>)
        ensures
            final(out)@ == old(out)@ + enc_header(self.object_id.id, self.datalen, self.opcode),
    {
        write_word(out, self.object_id.id);
        let w: u32 = self.datalen as u32 * 65536 + self.opcode as u32;
        write_word(out, w);
        assert(final(out)@ =~= old(out)@ + enc_header(self.object_id.id, self.datalen, self.opcode));
    }
}

/// A field of a message body.
pub enum Arg {
    Int(Int),
    Uint(UInt),
    Fixed(Fixed),
    Object(object),
    NullableObject(Option<object>),
    NewId(NewId),
    NewIdDyn(NewIdDyn),
    Str(String),
    NullableStr(Option<String>),
    Array(Array),
    Fd(Fd),
}

impl View for Arg {
    type V = Value;

    open spec fn view(&self) -> Value {
        match self {
            Arg::Int(v) => v@,
            Arg::Uint(v) => v@,
            Arg::Fixed(v) => v@,
            Arg::Object(v) => v@,
            Arg::NullableObject(o) => Value::NullableObject(
                match o {
                    Some(ob) => Some(ob.id),
                    None => None,
                },
            ),
            Arg::NewId(v) => v@,
            Arg::NewIdDyn(v) => v@,
            Arg::Str(v) => v@,
            Arg::NullableStr(o) => Value::NullableStr(
                match o {
                    Some(s) => Some(s.bytes@),
                    None => None,
                },
            ),
            Arg::Array(v) => v@,
            Arg::Fd(v) => v@,
        }
    }
}

impl Arg {
    pub fn kind(&self) -> (r: Kind)
        ensures
            r == kind_of(self@),
    {
        match self {
            Arg::Int(_) => Kind::Int,
            Arg::Uint(_) => Kind::Uint,
            Arg::Fixed(_) => Kind::Fixed,
            Arg::Object(_) => Kind::Object,
            Arg::NullableObject(_) => Kind::NullableObject,
            Arg::NewId(_) => Kind::NewId,
            Arg::NewIdDyn(_) => Kind::NewIdDyn,
            Arg::Str(_) => Kind::Str,
            Arg::NullableStr(_) => Kind::NullableStr,
            Arg::Array(_) => Kind::Array,
            Arg::Fd(_) => Kind::Fd,
        }
    }

    pub fn len(&self) -> (r: u32)
        requires
            valid(self@),
        ensures
            r as nat == enc(self@).len(),
    {
        match self {
            Arg::Int(v) => v.len(),
            Arg::Uint(v) => v.len(),
            Arg::Fixed(v) => v.len(),
            Arg::Object(v) => v.len(),
            Arg::NullableObject(_) => 4,
            Arg::NewId(v) => v.len(),
            Arg::NewIdDyn(v) => v.len(),
            Arg::Str(v) => v.len(),
            Arg::NullableStr(o) => match o {
                Some(s) => s.len(),
                None => 4,
            },
            Arg::Array(v) => v.len(),
            Arg::Fd(v) => v.len(),
        }
    }

    pub fn write(&self, out: &mut Vec<u8>, fds: &mut Vec<i32>)
        requires
            valid(self@),
        ensures
            final(out)@ == old(out)@ + enc(self@),
            final(fds)@ == old(fds)@ + enc_fds(self@),
    {
        match self {
            Arg::Int(v) => v.write(out, fds),
            Arg::Uint(v) => v.write(out, fds),
            Arg::Fixed(v) => v.write(out, fds),
            Arg::Object(v) => v.write(out, fds),
            Arg::NullableObject(o) => {
                write_nullable_object(*o, out);
                assert(fds@ =~= old(fds)@ + enc_fds(self@));
            },
            Arg::NewId(v) => v.write(out, fds),
            Arg::NewIdDyn(v) => v.write(out, fds),
            Arg::Str(v) => v.write(out, fds),
            Arg::NullableStr(o) => {
                write_nullable_string(o, out);
                assert(fds@ =~= old(fds)@ + enc_fds(self@));
            },
            Arg::Array(v) => v.write(out, fds),
            Arg::Fd(v) => v.write(out, fds),
        }
    }

    /// Reads a field of type `k`.
    pub fn read(k: Kind, data: &[u8], pos: &mut usize, fds: &[i32], fd_pos: &mut usize) -> (r: Result<Arg, Error>)
        requires
            *old(pos) <= data@.len(),
            *old(fd_pos) <= fds@.len(),
        ensures
            read_spec(k, data@, fds@, *old(pos) as int, *old(fd_pos) as int,
                *final(pos) as int, *final(fd_pos) as int, outcome(r)),
    {
        match k {
            Kind::Int => match Int::read(data, pos, fds, fd_pos) {
                Ok(v) => Ok(Arg::Int(v)),
                Err(e) => Err(e),
            },
            Kind::Uint => match UInt::read(data, pos, fds, fd_pos) {
                Ok(v) => Ok(Arg::Uint(v)),
                Err(e) => Err(e),
            },
            Kind::Fixed => match Fixed::read(data, pos, fds, fd_pos) {
                Ok(v) => Ok(Arg::Fixed(v)),
                Err(e) => Err(e),
            },
            Kind::Object => match object::read(data, pos, fds, fd_pos) {
                Ok(v) => Ok(Arg::Object(v)),
                Err(e) => Err(e),
            },
            Kind::NullableObject => match read_nullable_object(data, pos, fds, fd_pos) {
                Ok(v) => Ok(Arg::NullableObject(v)),
                Err(e) => Err(e),
            },
            Kind::NewId => match NewId::read(data, pos, fds, fd_pos) {
                Ok(v) => Ok(Arg::NewId(v)),
                Err(e) => Err(e),
            },
            Kind::NewIdDyn => match NewIdDyn::read(data, pos, fds, fd_pos) {
                Ok(v) => Ok(Arg::NewIdDyn(v)),
                Err(e) => Err(e),
            },
            Kind::Str => match String::read(data, pos, fds, fd_pos) {
                Ok(v) => Ok(Arg::Str(v)),
                Err(e) => Err(e),
            },
            Kind::NullableStr => match read_nullable_string(data, pos, fds, fd_pos) {
                Ok(v) => Ok(Arg::NullableStr(v)),
                Err(e) => Err(e),
            },
            Kind::Array => match Array::read(data, pos, fds, fd_pos) {
                Ok(v) => Ok(Arg::Array(v)),
                Err(e) => Err(e),
            },
            Kind::Fd => match Fd::read(data, pos, fds, fd_pos) {
                Ok(v) => Ok(Arg::Fd(v)),
                Err(e) => Err(e),
            },
        }
    }
}

impl Arg {
    /// Whether the field has an encoding: IDs that must not be null are non-zero and
    /// lengths fit the wire.
    pub fn is_valid(&self) -> (r: bool)
        ensures
            r == valid(self@),
    {
        match self {
            Arg::Object(o) => o.id != 0,
            Arg::NullableObject(o) => match o {
                Some(ob) => ob.id != 0,
                None => true,
            },
            Arg::NewId(n) => n.id != 0,
            Arg::NewIdDyn(d) => d.id.id != 0 && d.name.bytes.len() < MAX_BLOB as usize,
            Arg::Str(s) => s.bytes.len() < MAX_BLOB as usize,
            Arg::NullableStr(o) => match o {
                Some(s) => s.bytes.len() < MAX_BLOB as usize,
                None => true,
            },
            Arg::Array(a) => a.data.len() <= MAX_BLOB as usize,
            _ => true,
        }
    }
}

/// Whether every field of a body has an encoding.
pub fn args_valid(args: &Vec<Arg>) -> (r: bool)
    ensures
        r == all_valid(values(args@)),
{
    let mut i: usize = 0;
    while i < args.len()
        invariant
            i <= args@.len(),
            forall|j: int| 0 <= j < i ==> valid(#[trigger] values(args@)[j]),
        decreases args@.len() - i,
    {
        assert(values(args@)[i as int] == args@[i as int]@);
        if !args[i].is_valid() {
            return false;
        }
        i += 1;
    }
    true
}

/// Values of a sequence of fields.
pub open spec fn values(args: Seq<Arg>) -> Seq<Value> {
    args.map_values(|a: Arg| a@)
}

/// Types of a sequence of values.
pub open spec fn kinds(vs: Seq<Value>) -> Seq<Kind> {
    vs.map_values(|v: Value| kind_of(v))
}

/// In-band bytes of a body: the fields' encodings in order.
pub open spec fn enc_all(vs: Seq<Value>) -> Seq<u8>
    decreases vs.len(),
{
    if vs.len() == 0 {
        Seq::empty()
    } else {
        enc_all(vs.drop_last()) + enc(vs.last())
    }
}

/// Descriptors of a body, in field order.
pub open spec fn fds_all(vs: Seq<Value>) -> Seq<i32>
    decreases vs.len(),
{
    if vs.len() == 0 {
        Seq::empty()
    } else {
        fds_all(vs.drop_last()) + enc_fds(vs.last())
    }
}

/// Every field has an encoding.
pub open spec fn all_valid(vs: Seq<Value>) -> bool {
    forall|i: int| 0 <= i < vs.len() ==> valid(#[trigger] vs[i])
}

/// Decoding of one field, as a body sees it.
#[verifier::opaque]
pub open spec fn dec_field(k: Kind, d: Seq<u8>, f: Seq<i32>) -> Result<(Value, nat, nat), error> {
    dec(k, d, f)
}

/// Decoding of a body with field types `ks` from the front of `d` and `f`: the values, and
/// how many bytes and descriptors they took.
pub open spec fn dec_all(ks: Seq<Kind>, d: Seq<u8>, f: Seq<i32>) -> Result<(Seq<Value>, nat, nat), error>
    decreases ks.len(),
{
    if ks.len() == 0 {
        Ok((Seq::empty(), 0, 0))
    } else {
        match dec_all(ks.drop_last(), d, f) {
            Err(e) => Err(e),
            Ok((vs, nb, nf)) => match dec_field(ks.last(), d.skip(nb as int), f.skip(nf as int)) {
                Err(e) => Err(e),
                Ok((v, b, c)) => Ok((vs.push(v), nb + b, nf + c)),
            },
        }
    }
}


/// The header written for a frame reads back as the same ID, length and opcode.
pub proof fn lemma_header_round_trip(object_id: u32, datalen: u16, opcode: u16, rest: Seq<u8>)
    requires
        object_id != 0,
    ensures
        dec_header(enc_header(object_id, datalen, opcode) + rest) == Ok::<(u32, u16, u16), error>(
            (object_id, datalen, opcode),
        ),
{
    let w = size_opcode_word(datalen, opcode);
    let d = enc_header(object_id, datalen, opcode) + rest;
    assert(d =~= le_bytes(object_id) + (le_bytes(w) + rest));
    lemma_word_prefix(object_id, le_bytes(w) + rest);
    assert(d.skip(4) =~= le_bytes(w) + rest);
    lemma_word_prefix(w, rest);
    assert(w == datalen as int * 65536 + opcode as int);
    assert((w / 65536) as u16 == datalen && (w % 65536) as u16 == opcode) by (nonlinear_arith)
        requires
            w == datalen as int * 65536 + opcode as int,
            opcode < 65536,
    ;
}

/// The encoding of a body is a whole number of words.
pub proof fn lemma_body_aligned(vs: Seq<Value>)
    requires
        all_valid(vs),
    ensures
        enc_all(vs).len() % 4 == 0,
    decreases vs.len(),
{
    if vs.len() > 0 {
        assert(valid(vs[vs.len() - 1]));
        assert(all_valid(vs.drop_last())) by {
            assert forall|i: int| 0 <= i < vs.drop_last().len() implies valid(#[trigger] vs.drop_last()[i]) by {
                assert(vs.drop_last()[i] == vs[i]);
            }
        }
        lemma_body_aligned(vs.drop_last());
        lemma_round_trip(vs.last(), Seq::empty(), Seq::empty());
    }
}

/// Reading back a written body with its field types gives the same values, and takes exactly
/// its bytes and descriptors, whatever follows.
pub proof fn lemma_body_round_trip(vs: Seq<Value>, rest: Seq<u8>, frest: Seq<i32>)
    requires
        all_valid(vs),
    ensures
        dec_all(kinds(vs), enc_all(vs) + rest, fds_all(vs) + frest)
            == Ok::<(Seq<Value>, nat, nat), error>((vs, enc_all(vs).len(), fds_all(vs).len())),
    decreases vs.len(),
{
    if vs.len() == 0 {
        assert(kinds(vs).len() == 0);
        assert(vs =~= Seq::<Value>::empty());
    } else {
        let init = vs.drop_last();
        let v = vs.last();
        assert(all_valid(init)) by {
            assert forall|i: int| 0 <= i < init.len() implies valid(#[trigger] init[i]) by {
                assert(init[i] == vs[i]);
            }
        }
        assert(valid(vs[vs.len() - 1]));
        let d = enc_all(vs) + rest;
        let f = fds_all(vs) + frest;
        assert(d =~= enc_all(init) + (enc(v) + rest));
        assert(f =~= fds_all(init) + (enc_fds(v) + frest));
        lemma_body_round_trip(init, enc(v) + rest, enc_fds(v) + frest);
        assert(kinds(vs).drop_last() =~= kinds(init));
        assert(kinds(vs).last() == kind_of(v));
        assert(d.skip(enc_all(init).len() as int) =~= enc(v) + rest);
        assert(f.skip(fds_all(init).len() as int) =~= enc_fds(v) + frest);
        lemma_round_trip(v, rest, frest);
        assert(dec_field(kind_of(v), enc(v) + rest, enc_fds(v) + frest) == dec(kind_of(v), enc(v) + rest, enc_fds(v) + frest)) by {
            reveal(dec_field);
        }
        assert(init.push(v) =~= vs);
        assert(dec_all(kinds(vs).drop_last(), d, f) == Ok::<(Seq<Value>, nat, nat), error>((init, enc_all(init).len(), fds_all(init).len())));
        assert(enc_all(vs).len() == enc_all(init).len() + enc(v).len());
        assert(fds_all(vs).len() == fds_all(init).len() + enc_fds(v).len());
    }
}


/// Number of descriptor fields among `ks`.
pub open spec fn fd_fields(ks: Seq<Kind>) -> nat
    decreases ks.len(),
{
    if ks.len() == 0 {
        0
    } else {
        fd_fields(ks.drop_last()) + if ks.last() == Kind::Fd { 1nat } else { 0nat }
    }
}

/// A body carries exactly one descriptor per descriptor field of its schema.
pub proof fn lemma_fd_count(vs: Seq<Value>)
    ensures
        fds_all(vs).len() == fd_fields(kinds(vs)),
    decreases vs.len(),
{
    if vs.len() > 0 {
        assert(kinds(vs).drop_last() =~= kinds(vs.drop_last()));
        lemma_fd_count(vs.drop_last());
    }
}

/// A body whose first fields fail to decode fails with the same error.
proof fn lemma_dec_all_prefix_err(ks: Seq<Kind>, j: int, d: Seq<u8>, f: Seq<i32>)
    requires
        0 <= j <= ks.len(),
        dec_all(ks.take(j), d, f) is Err,
    ensures
        dec_all(ks, d, f) == dec_all(ks.take(j), d, f),
    decreases ks.len(),
{
    if j == ks.len() {
        assert(ks.take(j) =~= ks);
    } else {
        assert(ks.drop_last().take(j) =~= ks.take(j));
        lemma_dec_all_prefix_err(ks.drop_last(), j, d, f);
    }
}

/// Length in bytes of a body.
pub fn args_len(args: &Vec<Arg>) -> (r: u64)
    requires
        all_valid(values(args@)),
        args@.len() <= 0xffff_ffff,
    ensures
        r as nat == enc_all(values(args@)).len(),
{
    let mut total: u64 = 0;
    let mut i: usize = 0;
    while i < args.len()
        invariant
            i <= args@.len() <= 0xffff_ffff,
            all_valid(values(args@)),
            total as nat == enc_all(values(args@).take(i as int)).len(),
            total <= i * 0xffff_ffff,
        decreases args@.len() - i,
    {
        assert(values(args@)[i as int] == args@[i as int]@);
        let n = args[i].len();
        assert(values(args@).take(i + 1).drop_last() =~= values(args@).take(i as int));
        total = total + n as u64;
        i += 1;
    }
    assert(values(args@).take(i as int) =~= values(args@));
    total
}

/// Appends a body: each field in order.
pub fn write_args(args: &Vec<Arg>, out: &mut Vec<u8>, fds: &mut Vec<i32>)
    requires
        all_valid(values(args@)),
    ensures
        final(out)@ == old(out)@ + enc_all(values(args@)),
        final(fds)@ == old(fds)@ + fds_all(values(args@)),
{
    let mut i: usize = 0;
    while i < args.len()
        invariant
            i <= args@.len(),
            all_valid(values(args@)),
            out@ == old(out)@ + enc_all(values(args@).take(i as int)),
            fds@ == old(fds)@ + fds_all(values(args@).take(i as int)),
        decreases args@.len() - i,
    {
        assert(values(args@)[i as int] == args@[i as int]@);
        args[i].write(out, fds);
        assert(values(args@).take(i + 1).drop_last() =~= values(args@).take(i as int));
        i += 1;
        assert(out@ =~= old(out)@ + enc_all(values(args@).take(i as int)));
        assert(fds@ =~= old(fds)@ + fds_all(values(args@).take(i as int)));
    }
    assert(values(args@).take(i as int) =~= values(args@));
}

/// Reads a body whose field types are `ks`; on failure both cursors stay.
#[verifier::rlimit(40)]
pub fn read_args(ks: &[Kind], data: &[u8], pos: &mut usize, fds: &[i32], fd_pos: &mut usize) -> (r: Result<Vec<Arg>, Error>)
    requires
        *old(pos) <= data@.len(),
        *old(fd_pos) <= fds@.len(),
    ensures
        match dec_all(ks@, data@.skip(*old(pos) as int), fds@.skip(*old(fd_pos) as int)) {
            Ok((vs, nb, nf)) => r is Ok && values(r->Ok_0@) == vs && *final(pos) == *old(pos) + nb
                && *final(fd_pos) == *old(fd_pos) + nf,
            Err(e) => r is Err && r->Err_0.err == e && *final(pos) == *old(pos) && *final(fd_pos)
                == *old(fd_pos),
        },
{
    let start = *pos;
    let fd_start = *fd_pos;
    let ghost d = data@.skip(start as int);
    let ghost f = fds@.skip(fd_start as int);
    let mut out: Vec<Arg> = Vec::new();
    let mut i: usize = 0;
    assert(values(out@) =~= Seq::<Value>::empty());
    assert(ks@.take(0).len() == 0);
    while i < ks.len()
        invariant
            i <= ks@.len(),
            start == *old(pos),
            fd_start == *old(fd_pos),
            start <= *pos <= data@.len(),
            fd_start <= *fd_pos <= fds@.len(),
            d == data@.skip(start as int),
            f == fds@.skip(fd_start as int),
            dec_all(ks@.take(i as int), d, f) == Ok::<(Seq<Value>, nat, nat), error>(
                (values(out@), (*pos - start) as nat, (*fd_pos - fd_start) as nat)),
        decreases ks@.len() - i,
    {
        let ghost before = (*pos, *fd_pos);
        reveal(dec_field);
        assert(ks@.take(i + 1).drop_last() =~= ks@.take(i as int));
        assert(ks@.take(i + 1).last() == ks@[i as int]);
        assert(data@.skip(*pos as int) =~= d.skip(*pos - start));
        assert(fds@.skip(*fd_pos as int) =~= f.skip(*fd_pos - fd_start));
        match Arg::read(ks[i], data, pos, fds, fd_pos) {
            Ok(a) => {
                let ghost prev = out@;
                out.push(a);
                assert(values(out@) =~= values(prev).push(a@));
            },
            Err(e) => {
                *pos = start;
                *fd_pos = fd_start;
                proof {
                    lemma_dec_all_prefix_err(ks@, i as int + 1, d, f);
                }
                return Err(e);
            },
        }
        i += 1;
    }
    assert(ks@.take(i as int) =~= ks@);
    Ok(out)
}

} // verus!
