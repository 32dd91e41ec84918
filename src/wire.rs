//! Primitive values of the wire format: their byte layout, and reading and writing them.
//!
//! Every in-band field is a whole number of 32-bit words, written in little-endian order.
//! File descriptors travel out of band: a field of that type takes one slot of a separate
//! descriptor queue and no bytes.
use vstd::prelude::*;
use crate::display::error;

verus! {

/// Little-endian bytes of a 32-bit word.
#[verifier::opaque]
pub open spec fn le_bytes(v: u32) -> Seq<u8> {
    seq![
        (v % 256) as u8,
        ((v / 256) % 256) as u8,
        ((v / 65536) % 256) as u8,
        (v / 16777216) as u8,
    ]
}

/// A word takes four bytes.
pub broadcast proof fn lemma_le_bytes_len(v: u32)
    ensures
        #[trigger] le_bytes(v).len() == 4,
{
    reveal(le_bytes);
}

/// The word whose little-endian bytes are the first four of `b`.
#[verifier::opaque]
pub open spec fn le_word(b: Seq<u8>) -> u32
    recommends
        b.len() >= 4,
{
    (b[0] as int + 256 * b[1] as int + 65536 * b[2] as int + 16777216 * b[3] as int) as u32
}

/// Reading back the bytes of a word gives the word.
pub proof fn lemma_le_word_bytes(v: u32)
    ensures
        le_word(le_bytes(v)) == v,
        le_bytes(v).len() == 4,
{
    reveal(le_bytes);
    reveal(le_word);
    let b = le_bytes(v);
    assert(b[0] as int == v % 256);
    assert(b[1] as int == (v / 256) % 256);
    assert(b[2] as int == (v / 65536) % 256);
    assert(b[3] as int == v / 16777216);
    assert(v as int == v % 256 + 256 * ((v / 256) % 256) + 65536 * ((v / 65536) % 256)
        + 16777216 * (v / 16777216)) by (nonlinear_arith);
}

/// Bytes of padding that bring `n` bytes up to a multiple of four.
pub open spec fn pad_len(n: nat) -> nat {
    ((4 - n % 4) % 4) as nat
}

/// `n` zero bytes.
pub open spec fn zeros(n: nat) -> Seq<u8> {
    Seq::new(n, |i: int| 0u8)
}

/// A length-prefixed run of bytes: the length word, the bytes, and zero padding.
pub open spec fn enc_blob(c: Seq<u8>) -> Seq<u8> {
    le_bytes(c.len() as u32) + c + zeros(pad_len(c.len()))
}

/// Number of padding bytes after `x` bytes of content.
pub fn pad_to_4(x: u32) -> (r: u32)
    ensures
        r == pad_len(x as nat),
{
    (4 - x % 4) % 4
}

/// Error of the codec: the display error value to report, and a message.
pub struct Error {
    pub err: error,
    pub msg: &'static str,
}

/// Takes the next four bytes at `*pos`, when there are four.
pub fn read_4_bytes(data: &[u8], pos: &mut usize) -> (r: Option<[u8; 4]>)
    ensures
        *old(pos) + 4 <= data@.len() ==> {
            &&& r is Some
            &&& r->0@ == data@.subrange(*old(pos) as int, *old(pos) + 4)
            &&& *final(pos) == *old(pos) + 4
        },
        *old(pos) + 4 > data@.len() ==> r is None && *final(pos) == *old(pos),
{
    if *pos > data.len() || data.len() - *pos < 4 {
        return None;
    }
    let p = *pos;
    let r = [data[p], data[p + 1], data[p + 2], data[p + 3]];
    *pos = p + 4;
    assert(r@ =~= data@.subrange(p as int, p + 4));
    Some(r)
}

/// The word of four little-endian bytes.
pub fn word_from_bytes(b: [u8; 4]) -> (r: u32)
    ensures
        r == le_word(b@),
{
    reveal(le_word);
    let r = b[0] as u32 + 256 * (b[1] as u32) + 65536 * (b[2] as u32) + 16777216 * (b[3] as u32);
    r
}

/// The four little-endian bytes of a word.
pub fn word_to_bytes(v: u32) -> (r: [u8; 4])
    ensures
        r@ == le_bytes(v),
{
    reveal(le_bytes);
    let r = [(v % 256) as u8, ((v / 256) % 256) as u8, ((v / 65536) % 256) as u8, (v / 16777216) as u8];
    assert(r@ =~= le_bytes(v));
    r
}

/// The word at the front of `d`, or an exhausted buffer.
pub open spec fn dec_word(d: Seq<u8>) -> Result<u32, error> {
    if d.len() < 4 {
        Err(error::implementation)
    } else {
        Ok(le_word(d))
    }
}

/// Reads one word at `*pos`; when fewer than four bytes remain the buffer is exhausted and
/// the cursor stays.
pub fn read_word(data: &[u8], pos: &mut usize) -> (r: Result<u32, Error>)
    requires
        *old(pos) <= data@.len(),
    ensures
        match dec_word(data@.skip(*old(pos) as int)) {
            Ok(w) => r == Ok::<u32, Error>(w) && *final(pos) == *old(pos) + 4,
            Err(e) => r is Err && r->Err_0.err == e && *final(pos) == *old(pos),
        },
{
    let ghost d = data@.skip(*pos as int);
    match read_4_bytes(data, pos) {
        Some(b) => {
            assert(b@[0] == d[0] && b@[1] == d[1] && b@[2] == d[2] && b@[3] == d[3]);
            reveal(le_word);
            Ok(word_from_bytes(b))
        },
        None => Err(error::implementation.msg("buffer too short for a word")),
    }
}

/// Appends the four bytes of a word.
pub fn write_word(out: &mut Vec<u8>, v: u32)
    ensures
        final(out)@ == old(out)@ + le_bytes(v),
{
    let b = word_to_bytes(v);
    proof {
        lemma_le_word_bytes(v);
    }
    out.push(b[0]);
    out.push(b[1]);
    out.push(b[2]);
    out.push(b[3]);
    assert(final(out)@ =~= old(out)@ + le_bytes(v));
}

} // verus!
