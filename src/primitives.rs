//! The typed values that make up a message body, with their encodings.
use std::marker::PhantomData;
use vstd::prelude::*;
use crate::display::error;
use crate::wire::{
    Error, dec_word, enc_blob, le_bytes, le_word, pad_len, pad_to_4, read_word, write_word, zeros,
};

verus! {

broadcast use crate::wire::lemma_le_bytes_len;

/// What a field holds, as a mathematical value.
pub enum Value {
    Int(i32),
    Uint(u32),
    Fixed(i32),
    Object(u32),
    NullableObject(Option<u32>),
    NewId(u32),
    /// Interface name (without its terminator), version, and ID.
    NewIdDyn(Seq<u8>, u32, u32),
    /// String content, without its terminating zero byte.
    Str(Seq<u8>),
    NullableStr(Option<Seq<u8>>),
    Array(Seq<u8>),
    Fd(i32),
}

/// The type of a field, as a message's schema gives it.
#[derive(Clone, Copy, Debug, PartialEq, Eq, Structural)]
pub enum Kind {
    Int,
    Uint,
    Fixed,
    Object,
    NullableObject,
    NewId,
    NewIdDyn,
    Str,
    NullableStr,
    Array,
    Fd,
}

/// The type of a value.
pub open spec fn kind_of(v: Value) -> Kind {
    match v {
        Value::Int(_) => Kind::Int,
        Value::Uint(_) => Kind::Uint,
        Value::Fixed(_) => Kind::Fixed,
        Value::Object(_) => Kind::Object,
        Value::NullableObject(_) => Kind::NullableObject,
        Value::NewId(_) => Kind::NewId,
        Value::NewIdDyn(..) => Kind::NewIdDyn,
        Value::Str(_) => Kind::Str,
        Value::NullableStr(_) => Kind::NullableStr,
        Value::Array(_) => Kind::Array,
        Value::Fd(_) => Kind::Fd,
    }
}

/// Wire form of a string: its length counts the terminating zero byte.
pub open spec fn enc_str(s: Seq<u8>) -> Seq<u8> {
    enc_blob(s.push(0u8))
}

/// In-band bytes of a value.
pub open spec fn enc(v: Value) -> Seq<u8> {
    match v {
        Value::Int(i) => le_bytes(i as u32),
        Value::Uint(u) => le_bytes(u),
        Value::Fixed(i) => le_bytes(i as u32),
        Value::Object(id) => le_bytes(id),
        Value::NullableObject(o) => match o {
            Some(id) => le_bytes(id),
            None => le_bytes(0),
        },
        Value::NewId(id) => le_bytes(id),
        Value::NewIdDyn(name, version, id) => enc_str(name) + le_bytes(version) + le_bytes(id),
        Value::Str(s) => enc_str(s),
        Value::NullableStr(o) => match o {
            Some(s) => enc_str(s),
            None => le_bytes(0),
        },
        Value::Array(a) => enc_blob(a),
        Value::Fd(_) => Seq::empty(),
    }
}

/// Descriptors that a value carries out of band.
pub open spec fn enc_fds(v: Value) -> Seq<i32> {
    match v {
        Value::Fd(fd) => seq![fd],
        _ => Seq::empty(),
    }
}


/// Signed 32-bit integer field.
#[derive(Clone, Copy, Debug)]
pub struct Int(pub i32);

/// Unsigned 32-bit integer field.
#[derive(Clone, Copy, Debug)]
pub struct UInt(pub u32);

/// A 24.8 signed fixed-point number, held as its raw 32-bit value.
#[derive(Clone, Copy, Debug)]
pub struct Fixed(pub i32);

/// Relies on `Clone for PhantomData`: cloning the empty marker of an interface tag, which
/// the derived `Clone` of the tagged IDs calls. There is nothing to state of the result.
pub assume_specification<T: core::marker::PointeeSized> [<std::marker::PhantomData<T> as std::clone::Clone>::clone] (_0: &std::marker::PhantomData<T>) -> std::marker::PhantomData<T>;

/// A non-null object ID, tagged with the interface `I` it was bound to. The tag exists
/// only for the type checker; on the wire an object is its ID.
#[allow(non_camel_case_types)]
#[derive(Clone, Copy, Debug)]
pub struct object<I = ()> {
    pub id: u32,
    pub interface: PhantomData<I>,
}

/// An ID announced for a freshly created object of interface `I`.
#[derive(Clone, Copy, Debug)]
pub struct NewId<I = ()> {
    pub id: u32,
    pub interface: PhantomData<I>,
}

/// A new ID whose interface the schema leaves open: interface name, version and ID.
#[derive(Clone, Debug)]
pub struct NewIdDyn {
    pub name: String,
    pub version: UInt,
    pub id: NewId,
}

/// A run of raw bytes.
#[derive(Clone, Debug)]
pub struct Array {
    pub data: Vec<u8>,
}

/// A string; the bytes held here exclude the terminating zero byte that the wire carries.
#[derive(Clone, Debug)]
pub struct String {
    pub bytes: Vec<u8>,
}

/// A file descriptor, carried out of band.
#[derive(Clone, Copy, Debug)]
pub struct Fd(pub i32);

/// Rounded-towards-zero integer part of a 24.8 fixed-point value.
pub open spec fn fixed_to_int(raw: int) -> int {
    if raw >= 0 {
        raw / 256
    } else {
        -((-raw) / 256)
    }
}

impl Fixed {
    /// The integer part, rounded towards zero.
    pub fn to_i32(self) -> (r: i32)
        ensures
            r as int == fixed_to_int(self.0 as int),
    {
        let raw = self.0 as i64;
        if raw >= 0 {
            (raw / 256) as i32
        } else {
            (-((-raw) / 256)) as i32
        }
    }

    /// The fixed-point value of an integer.
    pub fn from_i32(i: i32) -> (r: Fixed)
        requires
            -8388608 <= i < 8388608,
        ensures
            r.0 as int == i as int * 256,
    {
        Fixed(i * 256)
    }
}

impl<I> object<I> {
    /// The object with a non-zero ID.
    pub fn from_id(id: u32) -> (r: object<I>)
        requires
            id != 0,
        ensures
            r.id == id,
    {
        object { id, interface: PhantomData }
    }

    /// The same ID, seen as an object of interface `To`.
    pub fn cast<To>(self) -> (r: object<To>)
        ensures
            r.id == self.id,
    {
        object { id: self.id, interface: PhantomData }
    }

    pub fn id(&self) -> (r: u32)
        ensures
            r == self.id,
    {
        self.id
    }

    /// A protocol error on this object, with a display error value.
    pub fn err(self, err: error, msg: &'static str) -> (r: crate::display::Error<I>)
        ensures
            r.object == self,
            r.err == crate::display::error_code(err),
            r.msg == msg,
    {
        crate::display::Error::new(self, err, msg)
    }
}

impl<I> NewId<I> {
    /// A new ID with value `id`.
    pub fn from_id(id: u32) -> (r: NewId<I>)
        ensures
            r.id == id,
    {
        NewId { id, interface: PhantomData }
    }

    /// The same ID, announced for an object of interface `To`.
    pub fn cast<To>(self) -> (r: NewId<To>)
        ensures
            r.id == self.id,
    {
        NewId { id: self.id, interface: PhantomData }
    }

    pub fn id(&self) -> (r: u32)
        ensures
            r == self.id,
    {
        self.id
    }

    /// The object that this ID names.
    pub fn to_object(&self) -> (r: object<I>)
        ensures
            r.id == self.id,
    {
        object { id: self.id, interface: PhantomData }
    }

    /// A protocol error on the new object.
    pub fn err(self, err: error, msg: &'static str) -> (r: crate::display::Error<I>)
        ensures
            r.object.id == self.id,
            r.err == crate::display::error_code(err),
            r.msg == msg,
    {
        self.to_object().err(err, msg)
    }
}

/// Largest content of an array or string field that this codec handles.
pub const MAX_BLOB: u32 = 0xffff_0000;

/// An array fits the wire when its length, padding and length word fit 32 bits.
pub open spec fn blob_fits(a: Seq<u8>) -> bool {
    a.len() <= MAX_BLOB
}

/// A string fits the wire when it fits with its terminating zero byte.
pub open spec fn str_fits(s: Seq<u8>) -> bool {
    s.len() < MAX_BLOB
}

/// Values that have an encoding: IDs that must not be null are non-zero, lengths fit.
pub open spec fn valid(v: Value) -> bool {
    match v {
        Value::Object(id) => id != 0,
        Value::NullableObject(o) => o matches Some(id) ==> id != 0,
        Value::NewId(id) => id != 0,
        Value::NewIdDyn(name, _, id) => id != 0 && str_fits(name),
        Value::Str(s) => str_fits(s),
        Value::NullableStr(o) => o matches Some(s) ==> str_fits(s),
        Value::Array(a) => blob_fits(a),
        _ => true,
    }
}

/// Outcome of decoding one value from the front of `d` and `f`: the value, and how many
/// bytes and descriptors it took.
pub type Decoded = Result<(Value, nat, nat), error>;

/// The length-prefixed bytes at the front of `d` and the length of their whole field.
pub open spec fn dec_blob(d: Seq<u8>) -> Result<(Seq<u8>, nat), error> {
    if d.len() < 4 {
        Err(error::implementation)
    } else {
        let n = le_word(d) as nat;
        if 4 + n + pad_len(n) > d.len() {
            Err(error::implementation)
        } else {
            Ok((d.subrange(4, 4 + n as int), 4 + n + pad_len(n)))
        }
    }
}

/// A string field at the front of `d`: `None` for the null string.
pub open spec fn dec_str(d: Seq<u8>) -> Result<(Option<Seq<u8>>, nat), error> {
    match dec_blob(d) {
        Err(e) => Err(e),
        Ok((c, n)) => if c.len() == 0 {
            Ok((None, n))
        } else if c.last() != 0 {
            Err(error::invalid_method)
        } else {
            Ok((Some(c.drop_last()), n))
        },
    }
}

/// A new ID of open interface at the front of `d`: a non-null string, a version word and a
/// non-zero ID word.
pub open spec fn dec_new_id_dyn(d: Seq<u8>) -> Decoded {
    match dec_str(d) {
        Err(e) => Err(e),
        Ok((None, _)) => Err(error::invalid_method),
        Ok((Some(name), n)) => match dec_word(d.skip(n as int)) {
            Err(e) => Err(e),
            Ok(version) => match dec_word(d.skip(n + 4 as int)) {
                Err(e) => Err(e),
                Ok(id) => if id == 0 {
                    Err(error::invalid_method)
                } else {
                    Ok((Value::NewIdDyn(name, version, id), n + 8, 0))
                },
            },
        },
    }
}

/// Decoding of one field of type `k` from the front of `d` (bytes) and `f` (descriptors).
pub open spec fn dec(k: Kind, d: Seq<u8>, f: Seq<i32>) -> Decoded {
    match k {
        Kind::Int => match dec_word(d) {
            Ok(w) => Ok((Value::Int(w as i32), 4, 0)),
            Err(e) => Err(e),
        },
        Kind::Uint => match dec_word(d) {
            Ok(w) => Ok((Value::Uint(w), 4, 0)),
            Err(e) => Err(e),
        },
        Kind::Fixed => match dec_word(d) {
            Ok(w) => Ok((Value::Fixed(w as i32), 4, 0)),
            Err(e) => Err(e),
        },
        Kind::Object => match dec_word(d) {
            Ok(w) => if w == 0 { Err(error::invalid_method) } else { Ok((Value::Object(w), 4, 0)) },
            Err(e) => Err(e),
        },
        Kind::NullableObject => match dec_word(d) {
            Ok(w) => Ok((Value::NullableObject(if w == 0 { None } else { Some(w) }), 4, 0)),
            Err(e) => Err(e),
        },
        Kind::NewId => match dec_word(d) {
            Ok(w) => if w == 0 { Err(error::invalid_method) } else { Ok((Value::NewId(w), 4, 0)) },
            Err(e) => Err(e),
        },
        Kind::NewIdDyn => dec_new_id_dyn(d),
        Kind::Str => match dec_str(d) {
            Err(e) => Err(e),
            Ok((None, _)) => Err(error::invalid_method),
            Ok((Some(s), n)) => Ok((Value::Str(s), n, 0)),
        },
        Kind::NullableStr => match dec_str(d) {
            Err(e) => Err(e),
            Ok((o, n)) => Ok((Value::NullableStr(o), n, 0)),
        },
        Kind::Array => match dec_blob(d) {
            Err(e) => Err(e),
            Ok((c, n)) => Ok((Value::Array(c), n, 0)),
        },
        Kind::Fd => if f.len() == 0 {
            Err(error::implementation)
        } else {
            Ok((Value::Fd(f[0]), 0, 1))
        },
    }
}


/// The word at the front of an encoded word, whatever follows it.
pub proof fn lemma_word_prefix(w: u32, rest: Seq<u8>)
    ensures
        dec_word(le_bytes(w) + rest) == Ok::<u32, error>(w),
{
    let d = le_bytes(w) + rest;
    crate::wire::lemma_le_word_bytes(w);
    assert(d[0] == le_bytes(w)[0] && d[1] == le_bytes(w)[1] && d[2] == le_bytes(w)[2]
        && d[3] == le_bytes(w)[3]);
    reveal(le_word);
}

/// A length-prefixed field decodes to its content and its whole length.
proof fn lemma_blob_round_trip(c: Seq<u8>, rest: Seq<u8>)
    requires
        blob_fits(c),
    ensures
        dec_blob(enc_blob(c) + rest) == Ok::<(Seq<u8>, nat), error>((c, enc_blob(c).len())),
        enc_blob(c).len() == 4 + c.len() + pad_len(c.len()),
        enc_blob(c).len() % 4 == 0,
{
    let n = c.len() as u32;
    let d = enc_blob(c) + rest;
    crate::wire::lemma_le_word_bytes(n);
    assert(d =~= le_bytes(n) + (c + zeros(pad_len(c.len())) + rest));
    lemma_word_prefix(n, c + zeros(pad_len(c.len())) + rest);
    assert(d.subrange(4, 4 + c.len() as int) =~= c);
    lemma_padded_aligned(c.len());
}

/// Content plus its padding and length word is a whole number of words.
proof fn lemma_padded_aligned(n: nat)
    ensures
        (4 + n + pad_len(n)) % 4 == 0,
{
    let m = n % 4;
    assert(n == 4 * (n / 4) + m);
    assert(4 + n + pad_len(n) == 4 * (n / 4 + 1) + m + (4 - m) % 4);
    assert((4 * (n / 4 + 1) + 4) % 4 == 0) by (nonlinear_arith);
    assert((4 * (n / 4 + 1)) % 4 == 0) by (nonlinear_arith);
}

proof fn lemma_str_round_trip(s: Seq<u8>, rest: Seq<u8>)
    requires
        str_fits(s),
    ensures
        dec_str(enc_str(s) + rest) == Ok::<(Option<Seq<u8>>, nat), error>((Some(s), enc_str(s).len())),
        enc_str(s).len() % 4 == 0,
{
    lemma_blob_round_trip(s.push(0u8), rest);
    assert(s.push(0u8).drop_last() =~= s);
    assert(enc_str(s).len() % 4 == 0);
}

proof fn lemma_new_id_dyn_round_trip(name: Seq<u8>, version: u32, id: u32, rest: Seq<u8>)
    requires
        str_fits(name),
        id != 0,
    ensures
        dec_new_id_dyn(enc_str(name) + le_bytes(version) + le_bytes(id) + rest)
            == Ok::<(Value, nat, nat), error>((Value::NewIdDyn(name, version, id),
                enc_str(name).len() + 8, 0)),
        enc_str(name).len() % 4 == 0,
{
    let d = enc_str(name) + le_bytes(version) + le_bytes(id) + rest;
    crate::wire::lemma_le_word_bytes(version);
    crate::wire::lemma_le_word_bytes(id);
    let n = enc_str(name).len();
    assert(d =~= enc_str(name) + (le_bytes(version) + le_bytes(id) + rest));
    lemma_str_round_trip(name, le_bytes(version) + le_bytes(id) + rest);
    assert(d.skip(n as int) =~= le_bytes(version) + (le_bytes(id) + rest));
    lemma_word_prefix(version, le_bytes(id) + rest);
    assert(d.skip(n + 4 as int) =~= le_bytes(id) + rest);
    lemma_word_prefix(id, rest);
}

/// Reading back what was written gives the same value, takes exactly its bytes and
/// descriptors, and leaves what follows untouched; the encoding is a whole number of words.
pub proof fn lemma_round_trip(v: Value, rest: Seq<u8>, frest: Seq<i32>)
    requires
        valid(v),
    ensures
        dec(kind_of(v), enc(v) + rest, enc_fds(v) + frest)
            == Ok::<(Value, nat, nat), error>((v, enc(v).len(), enc_fds(v).len())),
        enc(v).len() % 4 == 0,
{
    match v {
        Value::Int(i) => {
            lemma_word_prefix(i as u32, rest);
            assert((i as u32) as i32 == i) by (bit_vector);
        },
        Value::Uint(u) => lemma_word_prefix(u, rest),
        Value::Fixed(i) => {
            lemma_word_prefix(i as u32, rest);
            assert((i as u32) as i32 == i) by (bit_vector);
        },
        Value::Object(id) => lemma_word_prefix(id, rest),
        Value::NullableObject(o) => match o {
            Some(id) => lemma_word_prefix(id, rest),
            None => lemma_word_prefix(0, rest),
        },
        Value::NewId(id) => lemma_word_prefix(id, rest),
        Value::NewIdDyn(name, version, id) => lemma_new_id_dyn_round_trip(name, version, id, rest),
        Value::Str(s) => lemma_str_round_trip(s, rest),
        Value::NullableStr(o) => match o {
            Some(s) => lemma_str_round_trip(s, rest),
            None => lemma_word_prefix(0, rest),
        },
        Value::Array(a) => lemma_blob_round_trip(a, rest),
        Value::Fd(fd) => {
            assert((enc_fds(v) + frest)[0] == fd);
        },
    }
}

/// What a read of a field of type `k` at byte cursor `p0` and descriptor cursor `f0` must do:
/// on success the value is the decoded one and both cursors move past the field; on failure
/// the error is the decoding's and the cursors stay.
pub open spec fn read_spec(
    k: Kind,
    data: Seq<u8>,
    fds: Seq<i32>,
    p0: int,
    f0: int,
    p1: int,
    f1: int,
    out: Result<Value, error>,
) -> bool {
    match dec(k, data.skip(p0), fds.skip(f0)) {
        Ok((v, nb, nf)) => out == Ok::<Value, error>(v) && p1 == p0 + nb && f1 == f0 + nf,
        Err(e) => out == Err::<Value, error>(e) && p1 == p0 && f1 == f0,
    }
}


impl View for Int {
    type V = Value;

    open spec fn view(&self) -> Value {
        Value::Int(self.0)
    }
}

impl View for UInt {
    type V = Value;

    open spec fn view(&self) -> Value {
        Value::Uint(self.0)
    }
}

impl View for Fixed {
    type V = Value;

    open spec fn view(&self) -> Value {
        Value::Fixed(self.0)
    }
}

impl<I> View for object<I> {
    type V = Value;

    open spec fn view(&self) -> Value {
        Value::Object(self.id)
    }
}

impl<I> View for NewId<I> {
    type V = Value;

    open spec fn view(&self) -> Value {
        Value::NewId(self.id)
    }
}

impl View for NewIdDyn {
    type V = Value;

    open spec fn view(&self) -> Value {
        Value::NewIdDyn(self.name.bytes@, self.version.0, self.id.id)
    }
}

impl View for String {
    type V = Value;

    open spec fn view(&self) -> Value {
        Value::Str(self.bytes@)
    }
}

impl View for Array {
    type V = Value;

    open spec fn view(&self) -> Value {
        Value::Array(self.data@)
    }
}

impl View for Fd {
    type V = Value;

    open spec fn view(&self) -> Value {
        Value::Fd(self.0)
    }
}

/// The value read, or the error value of a failed read.
pub open spec fn outcome<T: View<V = Value>>(r: Result<T, Error>) -> Result<Value, error> {
    match r {
        Ok(t) => Ok(t@),
        Err(e) => Err(e.err),
    }
}

impl Int {
    pub fn len(&self) -> (r: u32)
        ensures
            r as nat == enc(self@).len(),
    {
        4
    }

    pub fn read(data: &[u8], pos: &mut usize, fds: &[i32], fd_pos: &mut usize) -> (r: Result<Int, Error>)
        requires
            *old(pos) <= data@.len(),
            *old(fd_pos) <= fds@.len(),
        ensures
            read_spec(Kind::Int, data@, fds@, *old(pos) as int, *old(fd_pos) as int,
                *final(pos) as int, *final(fd_pos) as int, outcome(r)),
    {
        match read_word(data, pos) {
            Ok(w) => Ok(Int(w as i32)),
            Err(e) => Err(e),
        }
    }

    pub fn write(&self, out: &mut Vec<u8>, fds: &mut Vec<i32>)
        ensures
            final(out)@ == old(out)@ + enc(self@),
            final(fds)@ == old(fds)@ + enc_fds(self@),
    {
        write_word(out, self.0 as u32);
        assert(final(fds)@ =~= old(fds)@ + enc_fds(self@));
    }
}

impl UInt {
    pub fn len(&self) -> (r: u32)
        ensures
            r as nat == enc(self@).len(),
    {
        4
    }

    pub fn read(data: &[u8], pos: &mut usize, fds: &[i32], fd_pos: &mut usize) -> (r: Result<UInt, Error>)
        requires
            *old(pos) <= data@.len(),
            *old(fd_pos) <= fds@.len(),
        ensures
            read_spec(Kind::Uint, data@, fds@, *old(pos) as int, *old(fd_pos) as int,
                *final(pos) as int, *final(fd_pos) as int, outcome(r)),
    {
        match read_word(data, pos) {
            Ok(w) => Ok(UInt(w)),
            Err(e) => Err(e),
        }
    }

    pub fn write(&self, out: &mut Vec<u8>, fds: &mut Vec<i32>)
        ensures
            final(out)@ == old(out)@ + enc(self@),
            final(fds)@ == old(fds)@ + enc_fds(self@),
    {
        write_word(out, self.0);
        assert(final(fds)@ =~= old(fds)@ + enc_fds(self@));
    }
}

impl Fixed {
    pub fn len(&self) -> (r: u32)
        ensures
            r as nat == enc(self@).len(),
    {
        4
    }

    pub fn read(data: &[u8], pos: &mut usize, fds: &[i32], fd_pos: &mut usize) -> (r: Result<Fixed, Error>)
        requires
            *old(pos) <= data@.len(),
            *old(fd_pos) <= fds@.len(),
        ensures
            read_spec(Kind::Fixed, data@, fds@, *old(pos) as int, *old(fd_pos) as int,
                *final(pos) as int, *final(fd_pos) as int, outcome(r)),
    {
        match read_word(data, pos) {
            Ok(w) => Ok(Fixed(w as i32)),
            Err(e) => Err(e),
        }
    }

    pub fn write(&self, out: &mut Vec<u8>, fds: &mut Vec<i32>)
        ensures
            final(out)@ == old(out)@ + enc(self@),
            final(fds)@ == old(fds)@ + enc_fds(self@),
    {
        write_word(out, self.0 as u32);
        assert(final(fds)@ =~= old(fds)@ + enc_fds(self@));
    }
}

impl<I> object<I> {
    pub fn len(&self) -> (r: u32)
        ensures
            r as nat == enc(self@).len(),
    {
        4
    }

    /// Reads a non-null object ID; a zero ID is a malformed request.
    pub fn read(data: &[u8], pos: &mut usize, fds: &[i32], fd_pos: &mut usize) -> (r: Result<object<I>, Error>)
        requires
            *old(pos) <= data@.len(),
            *old(fd_pos) <= fds@.len(),
        ensures
            read_spec(Kind::Object, data@, fds@, *old(pos) as int, *old(fd_pos) as int,
                *final(pos) as int, *final(fd_pos) as int, outcome(r)),
    {
        let start = *pos;
        match read_word(data, pos) {
            Ok(w) => if w == 0 {
                *pos = start;
                Err(error::invalid_method.msg("null object not allowed here"))
            } else {
                Ok(object { id: w, interface: PhantomData })
            },
            Err(e) => Err(e),
        }
    }

    pub fn write(&self, out: &mut Vec<u8>, fds: &mut Vec<i32>)
        ensures
            final(out)@ == old(out)@ + enc(self@),
            final(fds)@ == old(fds)@ + enc_fds(self@),
    {
        write_word(out, self.id);
        assert(final(fds)@ =~= old(fds)@ + enc_fds(self@));
    }
}

/// Reads an object field that may be null.
pub fn read_nullable_object(data: &[u8], pos: &mut usize, fds: &[i32], fd_pos: &mut usize) -> (r: Result<Option<object>, Error>)
    requires
        *old(pos) <= data@.len(),
        *old(fd_pos) <= fds@.len(),
    ensures
        read_spec(Kind::NullableObject, data@, fds@, *old(pos) as int, *old(fd_pos) as int,
            *final(pos) as int, *final(fd_pos) as int,
            match r {
                Ok(o) => Ok(Value::NullableObject(match o { Some(ob) => Some(ob.id), None => None })),
                Err(e) => Err(e.err),
            }),
{
    match read_word(data, pos) {
        Ok(w) => if w == 0 { Ok(None) } else { Ok(Some(object::from_id(w))) },
        Err(e) => Err(e),
    }
}

/// Writes an object field that may be null: null is the ID zero.
pub fn write_nullable_object(o: Option<object>, out: &mut Vec<u8>)
    ensures
        final(out)@ == old(out)@ + enc(Value::NullableObject(match o { Some(ob) => Some(ob.id), None => None })),
{
    match o {
        Some(ob) => write_word(out, ob.id),
        None => write_word(out, 0),
    }
}

impl<I> NewId<I> {
    pub fn len(&self) -> (r: u32)
        ensures
            r as nat == enc(self@).len(),
    {
        4
    }

    /// Reads a new ID; zero is never a valid one.
    pub fn read(data: &[u8], pos: &mut usize, fds: &[i32], fd_pos: &mut usize) -> (r: Result<NewId<I>, Error>)
        requires
            *old(pos) <= data@.len(),
            *old(fd_pos) <= fds@.len(),
        ensures
            read_spec(Kind::NewId, data@, fds@, *old(pos) as int, *old(fd_pos) as int,
                *final(pos) as int, *final(fd_pos) as int, outcome(r)),
    {
        let start = *pos;
        match read_word(data, pos) {
            Ok(w) => if w == 0 {
                *pos = start;
                Err(error::invalid_method.msg("new id 0 is not allowed"))
            } else {
                Ok(NewId { id: w, interface: PhantomData })
            },
            Err(e) => Err(e),
        }
    }

    pub fn write(&self, out: &mut Vec<u8>, fds: &mut Vec<i32>)
        ensures
            final(out)@ == old(out)@ + enc(self@),
            final(fds)@ == old(fds)@ + enc_fds(self@),
    {
        write_word(out, self.id);
        assert(final(fds)@ =~= old(fds)@ + enc_fds(self@));
    }
}

/// Reads a string field: `None` for the null string; content without a terminating zero
/// byte is a malformed request.
fn read_str(data: &[u8], pos: &mut usize) -> (r: Result<Option<Vec<u8>>, Error>)
    requires
        *old(pos) <= data@.len(),
    ensures
        match dec_str(data@.skip(*old(pos) as int)) {
            Ok((o, n)) => r is Ok && *final(pos) == *old(pos) + n && match (r->Ok_0, o) {
                (Some(v), Some(s)) => v@ == s,
                (None, None) => true,
                _ => false,
            },
            Err(e) => r is Err && r->Err_0.err == e && *final(pos) == *old(pos),
        },
{
    let start = *pos;
    let mut c = match read_data(data, pos) {
        Ok(c) => c,
        Err(e) => return Err(e),
    };
    if c.len() == 0 {
        return Ok(None);
    }
    if c[c.len() - 1] != 0 {
        *pos = start;
        return Err(error::invalid_method.msg("string without a terminating zero byte"));
    }
    let ghost before = c@;
    c.pop();
    assert(c@ =~= before.drop_last());
    Ok(Some(c))
}

impl String {
    pub fn len(&self) -> (r: u32)
        requires
            valid(self@),
        ensures
            r as nat == enc(self@).len(),
    {
        let n = self.bytes.len() as u32 + 1;
        4 + n + pad_to_4(n)
    }

    /// Reads a non-null string; the null string is a malformed request.
    pub fn read(data: &[u8], pos: &mut usize, fds: &[i32], fd_pos: &mut usize) -> (r: Result<String, Error>)
        requires
            *old(pos) <= data@.len(),
            *old(fd_pos) <= fds@.len(),
        ensures
            read_spec(Kind::Str, data@, fds@, *old(pos) as int, *old(fd_pos) as int,
                *final(pos) as int, *final(fd_pos) as int, outcome(r)),
    {
        let start = *pos;
        match read_str(data, pos) {
            Ok(Some(bytes)) => Ok(String { bytes }),
            Ok(None) => {
                *pos = start;
                Err(error::invalid_method.msg("null string not allowed here"))
            },
            Err(e) => Err(e),
        }
    }

    pub fn write(&self, out: &mut Vec<u8>, fds: &mut Vec<i32>)
        requires
            valid(self@),
        ensures
            final(out)@ == old(out)@ + enc(self@),
            final(fds)@ == old(fds)@ + enc_fds(self@),
    {
        write_data(out, self.bytes.as_slice(), true);
        assert(final(fds)@ =~= old(fds)@ + enc_fds(self@));
    }
}

/// Reads a string field that may be null.
pub fn read_nullable_string(data: &[u8], pos: &mut usize, fds: &[i32], fd_pos: &mut usize) -> (r: Result<Option<String>, Error>)
    requires
        *old(pos) <= data@.len(),
        *old(fd_pos) <= fds@.len(),
    ensures
        read_spec(Kind::NullableStr, data@, fds@, *old(pos) as int, *old(fd_pos) as int,
            *final(pos) as int, *final(fd_pos) as int,
            match r {
                Ok(o) => Ok(Value::NullableStr(match o { Some(s) => Some(s.bytes@), None => None })),
                Err(e) => Err(e.err),
            }),
{
    match read_str(data, pos) {
        Ok(Some(bytes)) => Ok(Some(String { bytes })),
        Ok(None) => Ok(None),
        Err(e) => Err(e),
    }
}

/// Writes a string field that may be null: null is the length zero.
pub fn write_nullable_string(o: &Option<String>, out: &mut Vec<u8>)
    requires
        o matches Some(s) ==> str_fits(s.bytes@),
    ensures
        final(out)@ == old(out)@ + enc(Value::NullableStr(match o { Some(s) => Some(s.bytes@), None => None })),
{
    match o {
        Some(s) => write_data(out, s.bytes.as_slice(), true),
        None => write_word(out, 0),
    }
}

impl Array {
    pub fn len(&self) -> (r: u32)
        requires
            valid(self@),
        ensures
            r as nat == enc(self@).len(),
    {
        let n = self.data.len() as u32;
        4 + n + pad_to_4(n)
    }

    pub fn read(data: &[u8], pos: &mut usize, fds: &[i32], fd_pos: &mut usize) -> (r: Result<Array, Error>)
        requires
            *old(pos) <= data@.len(),
            *old(fd_pos) <= fds@.len(),
        ensures
            read_spec(Kind::Array, data@, fds@, *old(pos) as int, *old(fd_pos) as int,
                *final(pos) as int, *final(fd_pos) as int, outcome(r)),
    {
        match read_data(data, pos) {
            Ok(c) => Ok(Array { data: c }),
            Err(e) => Err(e),
        }
    }

    pub fn write(&self, out: &mut Vec<u8>, fds: &mut Vec<i32>)
        requires
            valid(self@),
        ensures
            final(out)@ == old(out)@ + enc(self@),
            final(fds)@ == old(fds)@ + enc_fds(self@),
    {
        write_data(out, self.data.as_slice(), false);
        assert(final(fds)@ =~= old(fds)@ + enc_fds(self@));
    }
}

impl Fd {
    /// No in-band bytes.
    pub fn len(&self) -> (r: u32)
        ensures
            r as nat == enc(self@).len(),
    {
        0
    }

    /// Takes the next descriptor; there must be one.
    pub fn read(data: &[u8], pos: &mut usize, fds: &[i32], fd_pos: &mut usize) -> (r: Result<Fd, Error>)
        requires
            *old(pos) <= data@.len(),
            *old(fd_pos) <= fds@.len(),
        ensures
            read_spec(Kind::Fd, data@, fds@, *old(pos) as int, *old(fd_pos) as int,
                *final(pos) as int, *final(fd_pos) as int, outcome(r)),
    {
        if *fd_pos < fds.len() {
            let fd = fds[*fd_pos];
            *fd_pos = *fd_pos + 1;
            Ok(Fd(fd))
        } else {
            Err(error::implementation.msg("no file descriptor left for an fd field"))
        }
    }

    pub fn write(&self, out: &mut Vec<u8>, fds: &mut Vec<i32>)
        ensures
            final(out)@ == old(out)@ + enc(self@),
            final(fds)@ == old(fds)@ + enc_fds(self@),
    {
        fds.push(self.0);
        assert(final(out)@ =~= old(out)@ + enc(self@));
        assert(final(fds)@ =~= old(fds)@ + enc_fds(self@));
    }
}

impl NewIdDyn {
    pub fn len(&self) -> (r: u32)
        requires
            valid(self@),
        ensures
            r as nat == enc(self@).len(),
    {
        let n = self.name.bytes.len() as u32 + 1;
        4 + n + pad_to_4(n) + 8
    }

    /// Reads interface name, version and ID, in that order.
    pub fn read(data: &[u8], pos: &mut usize, fds: &[i32], fd_pos: &mut usize) -> (r: Result<NewIdDyn, Error>)
        requires
            *old(pos) <= data@.len(),
            *old(fd_pos) <= fds@.len(),
        ensures
            read_spec(Kind::NewIdDyn, data@, fds@, *old(pos) as int, *old(fd_pos) as int,
                *final(pos) as int, *final(fd_pos) as int, outcome(r)),
    {
        let start = *pos;
        let ghost d = data@.skip(start as int);
        let name = match String::read(data, pos, fds, fd_pos) {
            Ok(s) => s,
            Err(e) => return Err(e),
        };
        let ghost n = *pos - start;
        assert(data@.skip(*pos as int) =~= d.skip(n));
        let version = match UInt::read(data, pos, fds, fd_pos) {
            Ok(v) => v,
            Err(e) => {
                *pos = start;
                return Err(e);
            },
        };
        assert(data@.skip(*pos as int) =~= d.skip(n + 4));
        let id = match NewId::read(data, pos, fds, fd_pos) {
            Ok(v) => v,
            Err(e) => {
                *pos = start;
                return Err(e);
            },
        };
        Ok(NewIdDyn { name, version, id })
    }

    pub fn write(&self, out: &mut Vec<u8>, fds: &mut Vec<i32>)
        requires
            valid(self@),
        ensures
            final(out)@ == old(out)@ + enc(self@),
            final(fds)@ == old(fds)@ + enc_fds(self@),
    {
        self.name.write(out, fds);
        self.version.write(out, fds);
        self.id.write(out, fds);
        assert(final(out)@ =~= old(out)@ + enc(self@));
        assert(final(fds)@ =~= old(fds)@ + enc_fds(self@));
    }
}

/// Copies `data[start..end]`.
fn copy_range(data: &[u8], start: usize, end: usize) -> (r: Vec<u8>)
    requires
        start <= end <= data@.len(),
    ensures
        r@ == data@.subrange(start as int, end as int),
{
    let mut r: Vec<u8> = Vec::new();
    let mut i: usize = start;
    while i < end
        invariant
            start <= i <= end <= data@.len(),
            r@ == data@.subrange(start as int, i as int),
        decreases end - i,
    {
        r.push(data[i]);
        i += 1;
    }
    r
}

/// Reads a length-prefixed field: the content, and the cursor moved past it and its padding.
pub fn read_data(data: &[u8], pos: &mut usize) -> (r: Result<Vec<u8>, Error>)
    requires
        *old(pos) <= data@.len(),
    ensures
        match dec_blob(data@.skip(*old(pos) as int)) {
            Ok((c, n)) => r is Ok && r->Ok_0@ == c && *final(pos) == *old(pos) + n,
            Err(e) => r is Err && r->Err_0.err == e && *final(pos) == *old(pos),
        },
{
    let start = *pos;
    let ghost d = data@.skip(start as int);
    let n = match read_word(data, pos) {
        Ok(n) => n,
        Err(e) => return Err(e),
    };
    let pad = pad_to_4(n);
    let total: u64 = n as u64 + pad as u64;
    if total > (data.len() - *pos) as u64 {
        *pos = start;
        return Err(error::implementation.msg("buffer too short for the field's content"));
    }
    let content = copy_range(data, *pos, *pos + n as usize);
    *pos = *pos + total as usize;
    assert(content@ =~= d.subrange(4, 4 + n as int));
    Ok(content)
}

/// Appends a length-prefixed field: length word, content, an optional terminating zero byte,
/// and zero padding.
pub fn write_data(out: &mut Vec<u8>, content: &[u8], nul: bool)
    requires
        content@.len() + (if nul { 1int } else { 0int }) <= MAX_BLOB,
    ensures
        final(out)@ == old(out)@ + enc_blob(if nul { content@.push(0u8) } else { content@ }),
{
    let ghost c = if nul { content@.push(0u8) } else { content@ };
    let len: u32 = if nul { content.len() as u32 + 1 } else { content.len() as u32 };
    write_word(out, len);
    let ghost after_len = out@;
    let mut i: usize = 0;
    while i < content.len()
        invariant
            i <= content@.len(),
            out@ == after_len + content@.subrange(0, i as int),
        decreases content@.len() - i,
    {
        out.push(content[i]);
        i += 1;
        assert(out@ =~= after_len + content@.subrange(0, i as int));
    }
    if nul {
        out.push(0u8);
    }
    assert(out@ =~= after_len + c);
    let pad = pad_to_4(len);
    let mut j: u32 = 0;
    while j < pad
        invariant
            j <= pad,
            pad == pad_len(c.len()),
            out@ == after_len + c + zeros(j as nat),
        decreases pad - j,
    {
        out.push(0u8);
        j += 1;
        assert(out@ =~= after_len + c + zeros(j as nat));
    }
    assert(final(out)@ =~= old(out)@ + enc_blob(c));
}

} // verus!
