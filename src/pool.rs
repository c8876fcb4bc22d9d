//! A fixed-capacity byte arena handing out disjoint regions.
//!
//! A region is placed at the cursor, which moves forward past each new region;
//! when that place is taken, at the start of the arena or right after a live
//! region. A region stays reserved until it is released. A request is refused,
//! never placed over a region still held, exactly when no place of its size
//! in the arena is free.

use vstd::prelude::*;

verus! {

/// A region of a pool's storage.
#[derive(Clone, Copy, Debug, PartialEq, Eq, Structural)]
pub struct Slice {
    pub start: usize,
    pub len: usize,
}

impl Slice {
    pub open spec fn end(self) -> int {
        self.start + self.len
    }

    /// The two regions share at least one byte.
    pub open spec fn overlaps(self, o: Slice) -> bool {
        self.start < o.end() && o.start < self.end()
    }
}

pub struct BufferPool {
    storage: Vec<u8>,
    cursor: usize,
    live: Vec<Slice>,
}

/// No region of `live` shares a byte with `s`.
pub open spec fn disjoint_from(s: Slice, live: Seq<Slice>) -> bool {
    forall|i: int| 0 <= i < live.len() ==> !s.overlaps(#[trigger] live[i])
}


/// The greatest end, not beyond `x`, among the regions of `live`; 0 when there is none.
pub open spec fn last_end_before(live: Seq<Slice>, x: int) -> int
    decreases live.len(),
{
    if live.len() == 0 {
        0
    } else {
        let r = last_end_before(live.drop_last(), x);
        let e = live.last().end();
        if e <= x && e > r {
            e
        } else {
            r
        }
    }
}

proof fn lemma_last_end_before(live: Seq<Slice>, x: int)
    requires
        x >= 0,
    ensures
        0 <= last_end_before(live, x) <= x,
        last_end_before(live, x) == 0 || exists|i: int| 0 <= i < live.len() && (#[trigger] live[i]).end() == last_end_before(live, x),
        forall|i: int| 0 <= i < live.len() && (#[trigger] live[i]).end() <= x ==> live[i].end() <= last_end_before(live, x),
    decreases live.len(),
{
    if live.len() > 0 {
        let init = live.drop_last();
        lemma_last_end_before(init, x);
        let r = last_end_before(init, x);
        if r != 0 {
            let i = choose|i: int| 0 <= i < init.len() && (#[trigger] init[i]).end() == r;
            assert(live[i] == init[i]);
        }
        assert forall|i: int| 0 <= i < live.len() && (#[trigger] live[i]).end() <= x implies live[i].end() <= last_end_before(live, x) by {
            if i < init.len() {
                assert(live[i] == init[i]);
            }
        }
        assert(live[live.len() - 1] == live.last());
    }
}

/// When some place of `len` bytes is free, one of the places that allocation
/// tries is free: the start of the arena or the end of a live region.
proof fn lemma_candidate_free(p: BufferPool, x: usize, len: usize)
    requires
        p.wf(),
        p.free_at(Slice { start: x, len }),
    ensures
        p.free_at(Slice { start: 0, len })
            || exists|i: int| 0 <= i < p.live().len()
                && p.free_at(Slice { start: (#[trigger] p.live()[i]).end() as usize, len }),
{
    let live = p.live();
    lemma_last_end_before(live, x as int);
    let c = last_end_before(live, x as int);
    let cand = Slice { start: c as usize, len };
    assert forall|i: int| 0 <= i < live.len() implies !cand.overlaps(#[trigger] live[i]) by {
        assert(!(Slice { start: x, len }).overlaps(live[i]));
    }
    if c != 0 {
        let i = choose|i: int| 0 <= i < live.len() && (#[trigger] live[i]).end() == c;
        assert(p.free_at(Slice { start: live[i].end() as usize, len }));
    }
}

impl BufferPool {
    /// The bytes of the arena.
    pub closed spec fn bytes(self) -> Seq<u8> {
        self.storage@
    }

    /// The regions handed out and not yet released, oldest first.
    pub closed spec fn live(self) -> Seq<Slice> {
        self.live@
    }

    /// Where the next region is tried first.
    pub closed spec fn cursor(self) -> int {
        self.cursor as int
    }

    pub open spec fn capacity(self) -> int {
        self.bytes().len() as int
    }

    /// The bytes of region `s`.
    pub open spec fn contents(self, s: Slice) -> Seq<u8> {
        self.bytes().subrange(s.start as int, s.end())
    }

    /// `s` lies inside the arena and shares no byte with a live region.
    pub open spec fn free_at(self, s: Slice) -> bool {
        s.end() <= self.capacity() && disjoint_from(s, self.live())
    }

    /// Every live region lies inside the arena, and no two live regions share a byte.
    pub open spec fn wf(self) -> bool {
        &&& 0 <= self.cursor() <= self.capacity()
        &&& forall|i: int| 0 <= i < self.live().len() ==> (#[trigger] self.live()[i]).end() <= self.capacity()
        &&& forall|i: int, j: int|
            0 <= i < self.live().len() && 0 <= j < self.live().len() && i != j
                ==> !(#[trigger] self.live()[i]).overlaps(#[trigger] self.live()[j])
    }

    pub fn new(capacity: usize) -> (r: BufferPool)
        ensures
            r.wf(),
            r.capacity() == capacity,
            r.live().len() == 0,
            r.cursor() == 0,
    {
        BufferPool { storage: vec![0u8; capacity], cursor: 0, live: Vec::new() }
    }

    fn is_free(&self, s: Slice) -> (r: bool)
        requires
            self.wf(),
        ensures
            r == self.free_at(s),
    {
        let cap = self.storage.len();
        if s.start > cap || s.len > cap - s.start {
            return false;
        }
        let mut i: usize = 0;
        while i < self.live.len()
            invariant
                0 <= i <= self.live@.len(),
                self.wf(),
                cap == self.capacity(),
                s.end() <= cap,
                forall|j: int| 0 <= j < i ==> !s.overlaps(#[trigger] self.live@[j]),
            decreases self.live@.len() - i,
        {
            let o = self.live[i];
            assert(self.live()[i as int] == o);
            if s.start < o.start + o.len && o.start < s.start + s.len {
                return false;
            }
            i = i + 1;
        }
        true
    }

    /// The first free place of `len` bytes that starts where a live region ends.
    fn find_after_live(&self, len: usize) -> (r: Option<Slice>)
        requires
            self.wf(),
        ensures
            match r {
                Some(s) => s.len == len && self.free_at(s)
                    && exists|i: int| 0 <= i < self.live().len() && s.start == (#[trigger] self.live()[i]).end(),
                None => forall|i: int| 0 <= i < self.live().len()
                    ==> !self.free_at(Slice { start: (#[trigger] self.live()[i]).end() as usize, len }),
            },
    {
        let cap = self.storage.len();
        let mut i: usize = 0;
        while i < self.live.len()
            invariant
                0 <= i <= self.live@.len(),
                self.wf(),
                cap == self.capacity(),
                forall|j: int| 0 <= j < i
                    ==> !self.free_at(Slice { start: (#[trigger] self.live()[j]).end() as usize, len }),
            decreases self.live@.len() - i,
        {
            let o = self.live[i];
            assert(self.live()[i as int] == o);
            let cand = Slice { start: o.start + o.len, len };
            if self.is_free(cand) {
                return Some(cand);
            }
            i = i + 1;
        }
        None
    }

    /// Reserves `len` bytes: at the cursor when that place is free, else at
    /// the start of the arena, else right after the first live region whose
    /// end leaves room. Refused only when no place of `len` bytes is free.
    pub fn allocate(&mut self, len: usize) -> (r: Option<Slice>)
        requires
            old(self).wf(),
        ensures
            final(self).wf(),
            final(self).bytes() == old(self).bytes(),
            match r {
                Some(s) => {
                    &&& s.len == len
                    &&& old(self).free_at(s)
                    &&& (s.start == old(self).cursor() || s.start == 0
                        || exists|i: int| 0 <= i < old(self).live().len() && s.start == (#[trigger] old(self).live()[i]).end())
                    &&& final(self).live() == old(self).live().push(s)
                    &&& final(self).cursor() == s.end()
                },
                None => {
                    &&& final(self).live() == old(self).live()
                    &&& !old(self).free_at(Slice { start: old(self).cursor() as usize, len })
                    &&& !old(self).free_at(Slice { start: 0, len })
                    &&& forall|x: usize| !(#[trigger] old(self).free_at(Slice { start: x, len }))
                },
            },
    {
        let cap = self.storage.len();
        let at_cursor = Slice { start: self.cursor, len };
        let s = if self.is_free(at_cursor) {
            at_cursor
        } else {
            let at_start = Slice { start: 0, len };
            if self.is_free(at_start) {
                at_start
            } else {
                match self.find_after_live(len) {
                    Some(after) => after,
                    None => {
                        proof {
                            assert forall|x: usize| !(#[trigger] self.free_at(Slice { start: x, len })) by {
                                if self.free_at(Slice { start: x, len }) {
                                    lemma_candidate_free(*self, x, len);
                                }
                            }
                        }
                        return None;
                    },
                }
            }
        };
        assert(s.end() <= cap);
        self.live.push(s);
        self.cursor = s.start + s.len;
        proof {
            assert forall|i: int, j: int|
                0 <= i < self.live().len() && 0 <= j < self.live().len() && i != j
                implies !(#[trigger] self.live()[i]).overlaps(#[trigger] self.live()[j]) by {
                if i < old(self).live().len() && j < old(self).live().len() {
                    assert(old(self).live()[i] == self.live()[i]);
                    assert(old(self).live()[j] == self.live()[j]);
                } else if i < old(self).live().len() {
                    assert(!s.overlaps(old(self).live()[i]));
                } else {
                    assert(!s.overlaps(old(self).live()[j]));
                }
            }
            assert forall|i: int| 0 <= i < self.live().len() implies (#[trigger] self.live()[i]).end() <= self.capacity() by {
                if i < old(self).live().len() {
                    assert(old(self).live()[i] == self.live()[i]);
                }
            }
        }
        Some(s)
    }
    /// Gives region `s` back: its first entry among the live regions is
    /// removed. Returns whether `s` was live.
    pub fn release(&mut self, s: Slice) -> (r: bool)
        requires
            old(self).wf(),
        ensures
            final(self).wf(),
            final(self).bytes() == old(self).bytes(),
            final(self).cursor() == old(self).cursor(),
            r == old(self).live().contains(s),
            r ==> exists|k: int| 0 <= k < old(self).live().len() && old(self).live()[k] == s
                && final(self).live() == old(self).live().remove(k),
            !r ==> final(self).live() == old(self).live(),
    {
        let mut i: usize = 0;
        while i < self.live.len()
            invariant
                0 <= i <= self.live@.len(),
                self.live@ == old(self).live@,
                self.storage == old(self).storage,
                self.cursor == old(self).cursor,
                old(self).wf(),
                forall|j: int| 0 <= j < i ==> #[trigger] self.live@[j] != s,
            decreases self.live@.len() - i,
        {
            if self.live[i] == s {
                let ghost before = self.live@;
                self.live.remove(i);
                proof {
                    assert(before[i as int] == s);
                    assert(old(self).live().contains(s));
                    assert forall|a: int, b: int|
                        0 <= a < self.live().len() && 0 <= b < self.live().len() && a != b
                        implies !(#[trigger] self.live()[a]).overlaps(#[trigger] self.live()[b]) by {
                        let a0 = if a < i { a } else { a + 1 };
                        let b0 = if b < i { b } else { b + 1 };
                        assert(self.live()[a] == before[a0]);
                        assert(self.live()[b] == before[b0]);
                    }
                    assert forall|a: int| 0 <= a < self.live().len() implies (#[trigger] self.live()[a]).end() <= self.capacity() by {
                        let a0 = if a < i { a } else { a + 1 };
                        assert(self.live()[a] == before[a0]);
                    }
                }
                return true;
            }
            i = i + 1;
        }
        proof {
            assert(!old(self).live().contains(s)) by {
                if old(self).live().contains(s) {
                    let k = choose|k: int| 0 <= k < old(self).live().len() && old(self).live()[k] == s;
                    assert(self.live@[k] != s);
                }
            }
        }
        false
    }

    /// Copies `data` into region `s`, starting `offset` bytes into it. No
    /// byte outside that span changes.
    pub fn write(&mut self, s: Slice, offset: usize, data: &[u8])
        requires
            old(self).wf(),
            s.end() <= old(self).capacity(),
            offset + data@.len() <= s.len,
        ensures
            final(self).wf(),
            final(self).live() == old(self).live(),
            final(self).cursor() == old(self).cursor(),
            final(self).capacity() == old(self).capacity(),
            forall|k: int| 0 <= k < data@.len() ==> #[trigger] final(self).bytes()[s.start + offset + k] == data@[k],
            forall|k: int| 0 <= k < old(self).capacity() && !(s.start + offset <= k < s.start + offset + data@.len())
                ==> #[trigger] final(self).bytes()[k] == old(self).bytes()[k],
    {
        let cap = self.storage.len();
        assert(s.start + offset <= cap);
        let base: usize = s.start + offset;
        let mut i: usize = 0;
        while i < data.len()
            invariant
                0 <= i <= data@.len(),
                base == s.start + offset,
                base + data@.len() <= self.storage@.len(),
                self.storage@.len() == old(self).storage@.len(),
                self.storage@.len() == cap,
                self.live@ == old(self).live@,
                self.cursor == old(self).cursor,
                old(self).wf(),
                forall|k: int| 0 <= k < i ==> #[trigger] self.storage@[base + k] == data@[k],
                forall|k: int| 0 <= k < self.storage@.len() && !(base <= k < base + i)
                    ==> #[trigger] self.storage@[k] == old(self).storage@[k],
            decreases data@.len() - i,
        {
            self.storage.set(base + i, data[i]);
            i = i + 1;
        }
        assert(self.live() == old(self).live());
        assert(self.capacity() == old(self).capacity());
    }

    /// A copy of the bytes of region `s`.
    pub fn read(&self, s: Slice) -> (r: Vec<u8>)
        requires
            s.end() <= self.capacity(),
        ensures
            r@ == self.contents(s),
    {
        let cap = self.storage.len();
        assert(s.end() <= cap);
        let r = vstd::slice::slice_to_vec(vstd::slice::slice_subrange(self.storage.as_slice(), s.start, s.start + s.len));
        assert(r@ =~= self.contents(s));
        r
    }
}

/// Two regions that are live together never share a byte.
pub proof fn lemma_live_regions_disjoint(p: BufferPool, i: int, j: int)
    requires
        p.wf(),
        0 <= i < p.live().len(),
        0 <= j < p.live().len(),
        i != j,
    ensures
        !p.live()[i].overlaps(p.live()[j]),
{
    assert(!p.live()[i].overlaps(p.live()[j]));
}

/// A region keeps its bytes while other live regions are written: when the
/// bytes change only inside live region `t`, those of every other live region
/// `s` stay as they were. Allocation changes no byte at all.
pub proof fn lemma_region_kept(p: BufferPool, q: BufferPool, i: int, j: int)
    requires
        p.wf(),
        0 <= i < p.live().len(),
        0 <= j < p.live().len(),
        i != j,
        q.capacity() == p.capacity(),
        forall|k: int| 0 <= k < p.capacity() && !(p.live()[j].start <= k < p.live()[j].end())
            ==> #[trigger] q.bytes()[k] == p.bytes()[k],
    ensures
        q.contents(p.live()[i]) == p.contents(p.live()[i]),
{
    let s = p.live()[i];
    let t = p.live()[j];
    assert(!s.overlaps(t));
    assert forall|k: int| 0 <= k < s.len implies #[trigger] q.contents(s)[k] == p.contents(s)[k] by {
        assert(q.bytes()[s.start + k] == p.bytes()[s.start + k]);
    }
    assert(q.contents(s) =~= p.contents(s));
}

} // verus!
