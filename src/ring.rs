//! A fixed-size FIFO buffer: the occupied region `[start, end)` of one allocation, moved to
//! the front of the allocation when a write does not fit behind it.
use vstd::prelude::*;

verus! {

/// A bounded FIFO of `T` over a fixed allocation.
pub struct RingBuf<T> {
    buf: Vec<T>,
    start: usize,
    end: usize,
}

/// A saved position of a buffer's occupied region, for restoring after an abandoned attempt.
#[derive(Clone, Copy, Debug, PartialEq, Eq, Structural)]
pub struct Cursor {
    pub start: usize,
    pub end: usize,
}

impl<T: Copy> RingBuf<T> {
    /// The occupied region, oldest element first.
    pub closed spec fn view(&self) -> Seq<T> {
        self.buf@.subrange(self.start as int, self.end as int)
    }

    /// Size of the allocation.
    pub closed spec fn cap(&self) -> nat {
        self.buf@.len()
    }

    /// The allocation's contents.
    pub closed spec fn storage(&self) -> Seq<T> {
        self.buf@
    }

    /// The saved position of the occupied region.
    pub closed spec fn cursor(&self) -> Cursor {
        Cursor { start: self.start, end: self.end }
    }

    pub closed spec fn wf(&self) -> bool {
        self.start <= self.end <= self.buf@.len()
    }

    /// The occupied region that `c` describes over the current allocation.
    pub open spec fn region(&self, c: Cursor) -> Seq<T> {
        self.storage().subrange(c.start as int, c.end as int)
    }

    pub proof fn lemma_view_is_region(&self)
        requires
            self.wf(),
        ensures
            self.view() == self.region(self.cursor()),
            self.cursor().start <= self.cursor().end <= self.cap(),
            self.view().len() <= self.cap(),
    {
    }

    /// An empty buffer of `cap` slots, each filled with `fill` until written.
    pub fn new(cap: usize, fill: T) -> (r: RingBuf<T>)
        ensures
            r.wf(),
            r.view() == Seq::<T>::empty(),
            r.cap() == cap,
    {
        let mut buf: Vec<T> = Vec::new();
        let mut i: usize = 0;
        while i < cap
            invariant
                i <= cap,
                buf@.len() == i,
            decreases cap - i,
        {
            buf.push(fill);
            i += 1;
        }
        let r = RingBuf { buf, start: 0, end: 0 };
        assert(r.view() =~= Seq::<T>::empty());
        r
    }

    pub fn len(&self) -> (r: usize)
        requires
            self.wf(),
        ensures
            r == self.view().len(),
    {
        self.end - self.start
    }

    pub fn is_empty(&self) -> (r: bool)
        requires
            self.wf(),
        ensures
            r == (self.view().len() == 0),
    {
        self.end == self.start
    }

    pub fn capacity(&self) -> (r: usize)
        ensures
            r == self.cap(),
    {
        self.buf.len()
    }

    /// Slots in front of the occupied region.
    pub fn unused_start(&self) -> (r: usize)
        requires
            self.wf(),
        ensures
            r == self.cursor().start,
    {
        self.start
    }

    /// Slots behind the occupied region, up to the end of the allocation.
    pub fn unused_end(&self) -> (r: usize)
        requires
            self.wf(),
        ensures
            r == self.cap() - self.cursor().end,
    {
        self.buf.len() - self.end
    }

    /// Slots not occupied, in front and behind.
    pub fn free_space(&self) -> (r: usize)
        requires
            self.wf(),
        ensures
            r == self.cap() - self.view().len(),
    {
        self.buf.len() - (self.end - self.start)
    }

    /// Moves the occupied region to the front of the allocation.
    pub fn compact(&mut self)
        requires
            old(self).wf(),
        ensures
            final(self).wf(),
            final(self).view() == old(self).view(),
            final(self).cap() == old(self).cap(),
            final(self).cursor().start == 0,
    {
        let n = self.end - self.start;
        let ghost v = self.view();
        let mut i: usize = 0;
        while i < n
            invariant
                0 <= self.start <= self.end <= self.buf@.len(),
                self.buf@.len() == old(self).buf@.len(),
                n == self.end - self.start,
                i <= n,
                v == old(self).view(),
                self.start == old(self).start,
                self.end == old(self).end,
                forall|j: int| 0 <= j < i ==> self.buf@[j] == v[j],
                forall|j: int| i <= j < n ==> self.buf@[self.start + j] == v[j],
            decreases n - i,
        {
            let x = self.buf[self.start + i];
            self.buf.set(i, x);
            i += 1;
        }
        self.start = 0;
        self.end = n;
        assert(self.view() =~= v);
    }

    /// Appends all of `data` when it fits, moving the occupied region to the front first if
    /// the room behind it is too small; otherwise changes nothing.
    pub fn push_slice(&mut self, data: &[T]) -> (r: bool)
        requires
            old(self).wf(),
        ensures
            final(self).wf(),
            final(self).cap() == old(self).cap(),
            r == (old(self).view().len() + data@.len() <= old(self).cap()),
            r ==> final(self).view() == old(self).view() + data@,
            !r ==> *final(self) == *old(self),
    {
        let n = data.len();
        if n > self.buf.len() - (self.end - self.start) {
            return false;
        }
        if n > self.buf.len() - self.end {
            self.compact();
        }
        let ghost v = self.view();
        let base = self.end;
        let cap = self.buf.len();
        let mut i: usize = 0;
        while i < n
            invariant
                cap == self.buf@.len(),
                self.start <= base <= self.buf@.len(),
                base + n <= self.buf@.len(),
                self.buf@.len() == old(self).buf@.len(),
                self.end == base,
                i <= n,
                n == data@.len(),
                self.buf@.subrange(self.start as int, base as int) == v,
                forall|j: int| 0 <= j < i ==> self.buf@[base + j] == data@[j],
            decreases n - i,
        {
            self.buf.set(base + i, data[i]);
            i += 1;
            assert(self.buf@.subrange(self.start as int, base as int) =~= v);
        }
        self.end = base + n;
        assert(self.view() =~= v + data@);
        true
    }

    /// Removes and returns the `n` oldest elements when there are that many; otherwise
    /// changes nothing.
    pub fn pop_front(&mut self, n: usize) -> (r: Option<Vec<T>>)
        requires
            old(self).wf(),
        ensures
            final(self).wf(),
            final(self).cap() == old(self).cap(),
            final(self).storage() == old(self).storage(),
            n <= old(self).view().len() ==> {
                &&& r is Some
                &&& r->0@ == old(self).view().take(n as int)
                &&& final(self).view() == old(self).view().skip(n as int)
            },
            n > old(self).view().len() ==> r is None && *final(self) == *old(self),
    {
        if n > self.end - self.start {
            return None;
        }
        let mut out: Vec<T> = Vec::new();
        let mut i: usize = 0;
        while i < n
            invariant
                self.start + n <= self.end <= self.buf@.len(),
                i <= n,
                out@ == self.buf@.subrange(self.start as int, self.start + i),
            decreases n - i,
        {
            out.push(self.buf[self.start + i]);
            i += 1;
        }
        let ghost v = self.view();
        self.start = self.start + n;
        if self.start == self.end {
            self.start = 0;
            self.end = 0;
        }
        assert(out@ =~= v.take(n as int));
        assert(self.view() =~= v.skip(n as int));
        Some(out)
    }

    /// The `n` oldest elements, when there are that many, leaving the buffer as it is.
    pub fn peek(&self, n: usize) -> (r: Option<Vec<T>>)
        requires
            self.wf(),
        ensures
            n <= self.view().len() ==> r is Some && r->0@ == self.view().take(n as int),
            n > self.view().len() ==> r is None,
    {
        if n > self.end - self.start {
            return None;
        }
        let mut out: Vec<T> = Vec::new();
        let mut i: usize = 0;
        while i < n
            invariant
                self.start + n <= self.end <= self.buf@.len(),
                i <= n,
                out@ == self.buf@.subrange(self.start as int, self.start + i),
            decreases n - i,
        {
            out.push(self.buf[self.start + i]);
            i += 1;
        }
        assert(out@ =~= self.view().take(n as int));
        Some(out)
    }

    /// The position of the occupied region.
    pub fn save_cursor(&self) -> (r: Cursor)
        ensures
            r == self.cursor(),
    {
        Cursor { start: self.start, end: self.end }
    }

    /// Puts the occupied region back where `c` says; the allocation is left as it is.
    pub fn restore_cursor(&mut self, c: Cursor)
        requires
            c.start <= c.end <= old(self).cap(),
        ensures
            final(self).wf(),
            final(self).cursor() == c,
            final(self).storage() == old(self).storage(),
            final(self).cap() == old(self).cap(),
            final(self).view() == old(self).region(c),
    {
        self.start = c.start;
        self.end = c.end;
    }
}

/// A range of ring positions `[from, upto)` that wraps past the end of the ring when
/// `upto < from`.
#[derive(Clone, Copy, Debug, PartialEq, Eq, Structural)]
pub struct Range {
    pub from: usize,
    pub upto: usize,
}

/// A pair of positions: a slot index and a data offset.
#[derive(Clone, Copy, Debug, PartialEq, Eq, Structural)]
pub struct Point {
    pub slot: usize,
    pub data: usize,
}

/// Matching ranges of slots and of data.
#[derive(Clone, Copy, Debug, PartialEq, Eq, Structural)]
pub struct PointRange {
    pub slot: Range,
    pub data: Range,
}

impl PointRange {
    /// The end of both ranges.
    pub fn to(&self) -> (r: Point)
        ensures
            r.slot == self.slot.upto,
            r.data == self.data.upto,
    {
        Point { slot: self.slot.upto, data: self.data.upto }
    }
}

impl Range {
    /// The rest of a ring of `capacity` positions: from this range's end round to just before
    /// its start (the end of the ring when it starts at zero).
    pub fn invert(self, capacity: usize) -> (r: Range)
        ensures
            r.from == self.upto,
            self.from > 0 ==> r.upto == self.from - 1,
            self.from == 0 ==> r.upto == capacity,
    {
        Range { from: self.upto, upto: if self.from > 0 { self.from - 1 } else { capacity } }
    }

    /// The range as at most two plain ranges of a ring of `capacity` positions: itself when it
    /// does not wrap, else its part up to the end of the ring and its part from the start.
    pub fn into_ring_bounds(self, capacity: usize) -> (r: ((usize, usize), Option<(usize, usize)>))
        ensures
            self.from <= self.upto ==> r == ((self.from, self.upto), None::<(usize, usize)>),
            self.from > self.upto ==> r == ((self.from, capacity), Some((0usize, self.upto))),
    {
        if self.from <= self.upto {
            ((self.from, self.upto), None)
        } else {
            ((self.from, capacity), Some((0, self.upto)))
        }
    }
}

/// Free regions of a ring to write into, as zero, one or two ranges `[start, end)`.
#[derive(Clone, Copy, Debug, PartialEq, Eq, Structural)]
pub enum Bufs {
    Empty,
    One(usize, usize),
    Two(usize, usize, usize, usize),
}

/// Whether ring index `i` is in the occupied part `[free, next)`, which wraps when
/// `next < free`.
pub open spec fn occupied(free: usize, next: usize, i: int) -> bool {
    if free <= next {
        free <= i < next
    } else {
        i >= free || i < next
    }
}

/// Whether index `i` lies in one of the ranges of `b`.
pub open spec fn in_bufs(b: Bufs, i: int) -> bool {
    match b {
        Bufs::Empty => false,
        Bufs::One(s, e) => s <= i < e,
        Bufs::Two(s1, e1, s2, e2) => (s1 <= i < e1) || (s2 <= i < e2),
    }
}

/// Where to write next in a ring whose occupied part runs from `free` (inclusive) to `next`
/// (exclusive), wrapping when `next < free`, writing no further than the threshold `hold`.
///
/// Every range returned lies below `hold` and misses the occupied part, and together they
/// cover every free index below `hold` but the one just in front of `free`, which stays
/// empty so that a full ring can be told from an empty one.
pub fn free_space(free: usize, next: usize, hold: usize) -> (r: Bufs)
    ensures
        forall|i: int| #[trigger] in_bufs(r, i) ==> 0 <= i < hold && !occupied(free, next, i),
        forall|i: int| 0 <= i < hold && !occupied(free, next, i) && i + 1 != free ==> #[trigger] in_bufs(r, i),
{
    if free <= next {
        if free < hold {
            if next < hold {
                if free > 0 {
                    Bufs::Two(next, hold, 0, free - 1)
                } else {
                    Bufs::One(next, hold)
                }
            } else if free > 0 {
                Bufs::One(0, free - 1)
            } else {
                Bufs::Empty
            }
        } else if hold > 0 {
            Bufs::One(0, hold)
        } else {
            Bufs::Empty
        }
    } else if free < hold {
        Bufs::One(next, free)
    } else if next < hold {
        Bufs::One(next, hold)
    } else {
        Bufs::Empty
    }
}

/// The occupied part of a ring: from `free` (inclusive) to `next` (exclusive), wrapping
/// when `next < free`.
#[derive(Clone, Copy, Debug, PartialEq, Eq, Structural)]
pub struct Pair {
    pub free: usize,
    pub next: usize,
}

impl Pair {
    /// Where to write next, writing no further than `hold`; see [`free_space`].
    pub fn free_space(&self, hold: usize) -> (r: Bufs)
        ensures
            forall|i: int| #[trigger] in_bufs(r, i) ==> 0 <= i < hold && !occupied(self.free, self.next, i),
            forall|i: int| 0 <= i < hold && !occupied(self.free, self.next, i) && i + 1 != self.free
                ==> #[trigger] in_bufs(r, i),
    {
        free_space(self.free, self.next, hold)
    }

    /// Whether `[base, base + len)` lies within the occupied part: inside `[free, next)`
    /// when it does not wrap, else starting at or after `free` or ending before `next`.
    pub fn range_in_bound(&self, base: usize, len: usize) -> (r: bool)
        requires
            base + len <= usize::MAX,
        ensures
            self.free <= self.next ==> r == (self.free <= base && base + len < self.next),
            self.free > self.next ==> r == (self.free <= base || base + len < self.next),
    {
        let is_reversed_buf = self.free <= self.next;
        let is_base_in_bound = self.free <= base;
        let is_end_in_bound = base + len < self.next;
        (is_reversed_buf && is_base_in_bound && is_end_in_bound) || (!is_reversed_buf && is_base_in_bound) || (
        !is_reversed_buf && is_end_in_bound)
    }
}

} // verus!
