//! Bit-level helpers for slot bookkeeping: masks over ranges of bits, the highest set bit,
//! packed positions, and counters that wrap at a bound.
use vstd::prelude::*;
use vstd::std_specs::bits::{axiom_u64_trailing_zeros, u64_trailing_zeros};

verus! {

/// Whether bit `i` of `v` is set.
pub open spec fn bit(v: u64, i: u64) -> bool {
    (v >> i) & 1u64 == 1u64
}

/// The mask of bits `l..=63`.
pub open spec fn mask_from(l: u64) -> u64 {
    (u64::MAX - (((1u64 << l) - 1) as u64)) as u64
}

/// The mask of bits `l..u` for `u < 64`.
pub open spec fn mask_between(l: u64, u: u64) -> u64 {
    ((1u64 << u) - (1u64 << l)) as u64
}

proof fn lemma_mask_bits(l: u64, u: u64, i: u64)
    requires
        l <= 63,
        u <= 63,
        l <= u,
        i < 64,
    ensures
        u == 63 ==> bit(mask_from(l), i) == (l <= i && i <= u),
        u < 63 ==> bit(mask_between(l, (u + 1) as u64), i) == (l <= i && i <= u),
{
    let m = mask_from(l);
    assert(bit(m, i) == (l <= i)) by (bit_vector)
        requires
            l <= 63,
            i < 64,
            m == (u64::MAX - (((1u64 << l) - 1) as u64)) as u64,
    ;
    if u < 63 {
        let u1 = (u + 1) as u64;
        let m2 = mask_between(l, u1);
        assert(bit(m2, i) == (l <= i && i < u1)) by (bit_vector)
            requires
                l < u1,
                u1 <= 63,
                i < 64,
                m2 == ((1u64 << u1) - (1u64 << l)) as u64,
        ;
    }
}

/// The mask that selects bits `lower..=upper` of a `u64`; empty when `upper < lower`.
pub fn bitmask_range(lower: u8, upper: u8) -> (r: u64)
    requires
        lower <= 63,
        upper <= 63,
    ensures
        forall|i: u64| i < 64 ==> (#[trigger] bit(r, i) == (lower <= i && i <= upper)),
{
    let l = lower as u64;
    let u = upper as u64 + 1;
    if u <= l {
        assert forall|i: u64| i < 64 implies (#[trigger] bit(0u64, i) == (lower <= i && i <= upper)) by {
            assert((0u64 >> i) & 1u64 == 0u64) by (bit_vector);
        }
        0
    } else if u >= 64 {
        assert((1u64 << l) >= 1) by (bit_vector)
            requires
                l < 64,
        ;
        let r = u64::MAX - ((1u64 << l) - 1);
        assert(r == mask_from(l));
        assert forall|i: u64| i < 64 implies (#[trigger] bit(r, i) == (lower <= i && i <= upper)) by {
            lemma_mask_bits(l, upper as u64, i);
        }
        r
    } else {
        assert((1u64 << u) >= (1u64 << l)) by (bit_vector)
            requires
                l < u,
                u < 64,
        ;
        let r = (1u64 << u) - (1u64 << l);
        assert(r == mask_between(l, u));
        assert forall|i: u64| i < 64 implies (#[trigger] bit(r, i) == (lower <= i && i <= upper)) by {
            lemma_mask_bits(l, upper as u64, i);
        }
        r
    }
}

/// Index of the lowest set bit of `val`, counting from the least significant bit at 0;
/// `None` when no bit is set.
pub fn lowest_one(val: u64) -> (r: Option<u8>)
    ensures
        val == 0 ==> r is None,
        val != 0 ==> (r matches Some(i) && i < 64 && i as u32 == u64_trailing_zeros(val) && bit(val, i as u64)
            && forall|j: u64| j < i ==> !#[trigger] bit(val, j)),
{
    if val == 0 {
        return None;
    }
    let z = val.trailing_zeros();
    proof {
        axiom_u64_trailing_zeros(val);
        assert forall|j: u64| j < z implies !#[trigger] bit(val, j) by {
            assert((val >> j) & 1u64 == 0u64);
        }
    }
    Some(z as u8)
}

/// A range of bits within one chunk of a bitmap.
#[derive(Clone, Copy, Debug)]
pub struct ChunkInfo {
    pub chunk: usize,
    pub lower: u8,
    pub upper: u8,
}

impl ChunkInfo {
    /// The mask of the chunk's bits `lower..=upper`.
    pub fn mask(&self) -> (r: u64)
        requires
            self.lower <= 63,
            self.upper <= 63,
        ensures
            forall|i: u64| i < 64 ==> (#[trigger] bit(r, i) == (self.lower <= i && i <= self.upper)),
    {
        bitmask_range(self.lower, self.upper)
    }
}

/// A bit position in a bitmap of `LEN` chunks of 64 bits.
#[derive(Clone, Copy, Debug)]
pub struct Pos {
    pub chunk: usize,
    /// Bit within the chunk, below 64.
    pub index: u8,
}

impl Pos {
    /// The position `rhs` bits further on, wrapping from the last chunk to the first.
    pub fn wrapping_add<const LEN: usize>(self, rhs: u8) -> (r: Pos)
        requires
            self.chunk < LEN,
            self.index < 64,
            rhs < 64,
        ensures
            r.chunk < LEN,
            r.index < 64,
            (r.chunk as int * 64 + r.index) % (LEN as int * 64) == (self.chunk as int * 64 + self.index + rhs) % (
            LEN as int * 64),
            self.index + rhs < 64 ==> r.chunk == self.chunk && r.index == self.index + rhs,
    {
        let diff = 64 - self.index;
        if rhs < diff {
            Pos { chunk: self.chunk, index: self.index + rhs }
        } else {
            let next = if self.chunk + 1 < LEN { self.chunk + 1 } else { 0 };
            let r = Pos { chunk: next, index: rhs - diff };
            proof {
                let n = LEN as int * 64;
                let a = self.chunk as int * 64 + self.index + rhs;
                if self.chunk + 1 < LEN {
                    assert(r.chunk as int * 64 + r.index == a);
                } else {
                    assert(r.chunk as int * 64 + r.index == a - n);
                    vstd::arithmetic::div_mod::lemma_mod_sub_multiples_vanish(a, n);
                }
            }
            r
        }
    }
}

/// Adds `add` to a counter below `WRAP`, wrapping past `WRAP` back to zero.
pub fn assign_add_wrap<const WRAP: u16>(s: &mut u16, add: u16)
    requires
        *old(s) < WRAP,
    ensures
        add <= WRAP ==> *final(s) < WRAP,
        *old(s) + add < WRAP ==> *final(s) == *old(s) + add,
        *old(s) + add >= WRAP ==> *final(s) == *old(s) + add - WRAP,
{
    let diff = WRAP - *s;
    if add < diff {
        *s = *s + add;
    } else {
        *s = add - diff;
    }
}

/// A position in the three rings of a connection, packed into one `u64`: 18 bits of data
/// offset, 10 bits of descriptor offset and 15 bits of slot.
#[derive(Clone, Copy, Debug, PartialEq, Eq, Structural)]
pub struct WaylandPos {
    pub data: u32,
    pub ctrl: u16,
    pub slot: u16,
}

/// Fields that fit their widths.
pub open spec fn pos_fits(p: WaylandPos) -> bool {
    p.data < 0x40000 && p.ctrl < 0x400 && p.slot < 0x8000
}

impl WaylandPos {
    /// Unpacks the three fields.
    pub fn from_u64(val: u64) -> (r: WaylandPos)
        ensures
            pos_fits(r),
            r.data as u64 == (val >> 32u64) & 0x3ffff,
            r.ctrl as u64 == (val >> 16u64) & 0x3ff,
            r.slot as u64 == val & 0x7fff,
    {
        let data = ((val >> 32u64) & 0x3ffff) as u32;
        let ctrl = ((val >> 16u64) & 0x3ff) as u16;
        let sl = (val & 0x7fff) as u16;
        assert((val >> 32u64) & 0x3ffff < 0x40000) by (bit_vector);
        assert((val >> 16u64) & 0x3ff < 0x400) by (bit_vector);
        assert(val & 0x7fff < 0x8000) by (bit_vector);
        WaylandPos { data, ctrl, slot: sl }
    }

    /// Packs the three fields, each cut to its width.
    pub fn into_64(self) -> (r: u64)
        ensures
            pos_fits(self) ==> WaylandPos::spec_from(r) == self,
    {
        let d = (self.data & 0x3ffff) as u64;
        let c = (self.ctrl & 0x3ff) as u64;
        let s = (self.slot & 0x7fff) as u64;
        let r = (d << 32u64) | (c << 16u64) | s;
        proof {
            if pos_fits(self) {
                let (pd, pc, ps) = (self.data, self.ctrl, self.slot);
                lemma_pack_unpack(pd as u64, pc as u64, ps as u64);
                assert(pd & 0x3ffff == pd) by (bit_vector)
                    requires
                        pd < 0x40000,
                ;
                assert(pc & 0x3ff == pc) by (bit_vector)
                    requires
                        pc < 0x400,
                ;
                assert(ps & 0x7fff == ps) by (bit_vector)
                    requires
                        ps < 0x8000,
                ;
            }
        }
        r
    }

    /// The fields that `from_u64` unpacks from `val`.
    pub open spec fn spec_from(val: u64) -> WaylandPos {
        WaylandPos {
            data: ((val >> 32u64) & 0x3ffff) as u32,
            ctrl: ((val >> 16u64) & 0x3ff) as u16,
            slot: (val & 0x7fff) as u16,
        }
    }
}

proof fn lemma_pack_unpack(d: u64, c: u64, s: u64)
    requires
        d < 0x40000,
        c < 0x400,
        s < 0x8000,
    ensures
        ((((d << 32u64) | (c << 16u64) | s) >> 32u64) & 0x3ffff) == d,
        ((((d << 32u64) | (c << 16u64) | s) >> 16u64) & 0x3ff) == c,
        (((d << 32u64) | (c << 16u64) | s) & 0x7fff) == s,
{
    assert(((((d << 32u64) | (c << 16u64) | s) >> 32u64) & 0x3ffff) == d) by (bit_vector)
        requires
            d < 0x40000,
            c < 0x400,
            s < 0x8000,
    ;
    assert(((((d << 32u64) | (c << 16u64) | s) >> 16u64) & 0x3ff) == c) by (bit_vector)
        requires
            d < 0x40000,
            c < 0x400,
            s < 0x8000,
    ;
    assert((((d << 32u64) | (c << 16u64) | s) & 0x7fff) == s) by (bit_vector)
        requires
            d < 0x40000,
            c < 0x400,
            s < 0x8000,
    ;
}

/// Packing a position and unpacking it gives the same position back.
pub proof fn lemma_wayland_pos_round_trip(p: WaylandPos)
    requires
        pos_fits(p),
    ensures
        WaylandPos::spec_from(
            ((p.data as u64) << 32u64) | ((p.ctrl as u64) << 16u64) | (p.slot as u64),
        ) == p,
{
    lemma_pack_unpack(p.data as u64, p.ctrl as u64, p.slot as u64);
}

/// A slot index of 15 bits: 9 bits choose a chunk, 6 bits a bit within it.
#[allow(non_camel_case_types)]
#[derive(Clone, Copy, Debug)]
pub struct slot(pub u16);

impl slot {
    pub fn new(upper: u16, lower: u16) -> (r: slot)
        requires
            upper < 512,
            lower < 64,
        ensures
            r.0 == upper * 64 + lower,
    {
        let v = ((upper & 0x1ff) << 6u16) | (lower & 0x3f);
        assert(((upper & 0x1ff) << 6u16) | (lower & 0x3f) == upper * 64 + lower) by (bit_vector)
            requires
                upper < 512,
                lower < 64,
        ;
        slot(v)
    }

    /// Chunk and bit.
    pub fn get(self) -> (r: (u16, u32))
        ensures
            r.0 == self.0 / 64,
            r.1 == self.0 % 64,
    {
        (self.upper(), self.lower() as u32)
    }

    /// Bit within the chunk.
    pub fn lower(self) -> (r: u16)
        ensures
            r == self.0 % 64,
    {
        let x = self.0;
        let v = x & 0x3f;
        assert(x & 0x3f == x % 64) by (bit_vector);
        v
    }

    /// Chunk index.
    pub fn upper(self) -> (r: u16)
        ensures
            r == self.0 / 64,
    {
        let x = self.0;
        let v = x >> 6u16;
        assert(x >> 6u16 == x / 64) by (bit_vector);
        v
    }
}

} // verus!
