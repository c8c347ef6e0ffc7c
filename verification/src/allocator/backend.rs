//! The raw block allocator behind the front end.
//!
//! A backend hands out blocks of guest addresses and takes them back. It
//! knows nothing of poisoning, redzones or alignment: a block may start at
//! any byte.

use vstd::prelude::*;

use crate::layout::{align_up, lemma_align_up, GuestAddr};

verus! {

/// Whether `[a, a + n)` and `[b, b + m)` share a byte.
pub open spec fn overlap(a: int, n: int, b: int, m: int) -> bool {
    a < b + m && b < a + n
}

/// Whether the blocks of `m` (start to size) are non-empty, pairwise
/// disjoint and inside `[lo, hi)`.
pub open spec fn blocks_valid(m: Map<int, int>, lo: int, hi: int) -> bool {
    &&& forall|b: int| #[trigger] m.contains_key(b) ==> m[b] > 0 && lo <= b && b + m[b] <= hi
    &&& forall|b: int, c: int|
        #![trigger m.contains_key(b), m.contains_key(c)]
        m.contains_key(b) && m.contains_key(c) && b != c ==> !overlap(b, m[b], c, m[c])
}

/// A raw allocator of address blocks inside a fixed pool.
pub trait Backend: Sized {
    /// The internal consistency of the backend.
    spec fn wf(&self) -> bool;

    /// First address of the pool.
    spec fn lo(&self) -> int;

    /// One past the last address of the pool.
    spec fn hi(&self) -> int;

    /// The blocks that are handed out, each start with its size.
    spec fn blocks(&self) -> Map<int, int>;

    /// Whether a request for `size` bytes would be served.
    spec fn can_alloc(&self, size: int) -> bool;

    /// The start of the block that a request for `size` bytes would be
    /// served with.
    spec fn next_block(&self, size: int) -> int;

    /// Whether serving a request for `size` bytes, or refusing it, can leave
    /// this backend as `after`. This is where an implementation says what a
    /// request does to what its contract does not show otherwise.
    spec fn serves(&self, size: int, after: &Self) -> bool;

    /// Whether taking back the block of `size` bytes at `addr` can leave
    /// this backend as `after`.
    spec fn takes_back(&self, addr: int, size: int, after: &Self) -> bool;

    /// The blocks handed out by a well-formed backend are non-empty, lie in
    /// the pool and do not overlap.
    proof fn lemma_blocks(&self)
        requires
            self.wf(),
        ensures
            0 <= self.lo() <= self.hi() <= usize::MAX,
            blocks_valid(self.blocks(), self.lo(), self.hi()),
    ;

    /// A request that would be served gets a block that is not handed out,
    /// lies in the pool and overlaps no block that is handed out.
    proof fn lemma_next_block(&self, size: int)
        requires
            self.wf(),
            size > 0,
            self.can_alloc(size),
        ensures
            !self.blocks().contains_key(self.next_block(size)),
            blocks_valid(
                self.blocks().insert(self.next_block(size), size),
                self.lo(),
                self.hi(),
            ),
    ;

    /// First address of the pool.
    fn start(&self) -> (r: GuestAddr)
        requires
            self.wf(),
        ensures
            r == self.lo(),
    ;

    /// One past the last address of the pool.
    fn end(&self) -> (r: GuestAddr)
        requires
            self.wf(),
        ensures
            r == self.hi(),
    ;

    /// Hands out a block of `size` bytes, or `None` when the pool cannot
    /// serve the request.
    fn allocate(&mut self, size: usize) -> (r: Option<GuestAddr>)
        requires
            old(self).wf(),
            size > 0,
        ensures
            final(self).wf(),
            final(self).lo() == old(self).lo(),
            final(self).hi() == old(self).hi(),
            old(self).serves(size as int, final(self)),
            r is Some <==> old(self).can_alloc(size as int),
            r matches Some(b) ==> {
                &&& b == old(self).next_block(size as int)
                &&& !old(self).blocks().contains_key(b as int)
                &&& final(self).blocks() == old(self).blocks().insert(b as int, size as int)
            },
            r is None ==> final(self).blocks() == old(self).blocks(),
    ;

    /// Takes back the block of `size` bytes that starts at `addr`.
    fn dealloc(&mut self, addr: GuestAddr, size: usize)
        requires
            old(self).wf(),
            old(self).blocks().contains_key(addr as int),
            old(self).blocks()[addr as int] == size,
        ensures
            final(self).wf(),
            final(self).lo() == old(self).lo(),
            final(self).hi() == old(self).hi(),
            final(self).blocks() == old(self).blocks().remove(addr as int),
            old(self).takes_back(addr as int, size as int, final(self)),
    ;
}

/// A run of free addresses inside the pool.
#[derive(Clone, Copy, Debug)]
pub struct FreeBlock {
    /// First address of the run.
    pub base: GuestAddr,
    /// Length of the run.
    pub size: usize,
}

/// The index of the first run of `free` of at least `size` bytes, or the
/// length of `free` when it has none.
pub open spec fn first_fit_of(free: Seq<FreeBlock>, size: int) -> int
    decreases free.len(),
{
    if free.len() == 0 {
        0
    } else if free[0].size >= size {
        0
    } else {
        1 + first_fit_of(free.skip(1), size)
    }
}

/// `first_fit_of` is the least index of a run that is large enough.
pub proof fn lemma_first_fit_of(free: Seq<FreeBlock>, size: int)
    ensures
        0 <= first_fit_of(free, size) <= free.len(),
        first_fit_of(free, size) < free.len() ==> free[first_fit_of(free, size)].size >= size,
        forall|k: int| 0 <= k < first_fit_of(free, size) ==> (#[trigger] free[k]).size < size,
    decreases free.len(),
{
    if free.len() > 0 && free[0].size < size {
        let rest = free.skip(1);
        lemma_first_fit_of(rest, size);
        assert forall|k: int| 0 <= k < first_fit_of(free, size) implies (#[trigger] free[k]).size
            < size by {
            if k > 0 {
                assert(rest[k - 1] == free[k]);
            }
        }
    }
}

/// A backend over a pool of whole pages: it serves a request from the first
/// free run that is large enough, and else from the untouched end of the pool.
pub struct PoolBackend {
    base: GuestAddr,
    limit: GuestAddr,
    page_size: usize,
    top: GuestAddr,
    free: Vec<FreeBlock>,
    live: Ghost<Map<int, int>>,
}

impl PoolBackend {
    /// The free runs, in the order in which they are searched.
    pub closed spec fn free_runs(&self) -> Seq<FreeBlock> {
        self.free@
    }

    /// The end of the part of the pool that was ever handed out.
    pub closed spec fn watermark(&self) -> int {
        self.top as int
    }

    /// The size of a page of the pool.
    pub closed spec fn page(&self) -> int {
        self.page_size as int
    }

    spec fn free_valid(&self) -> bool {
        &&& forall|i: int|
            0 <= i < self.free@.len() ==> (#[trigger] self.free@[i]).size > 0 && self.base
                <= self.free@[i].base && self.free@[i].base + self.free@[i].size <= self.top
        &&& forall|i: int, j: int|
            0 <= i < j < self.free@.len() ==> !overlap(
                (#[trigger] self.free@[i]).base as int,
                self.free@[i].size as int,
                (#[trigger] self.free@[j]).base as int,
                self.free@[j].size as int,
            )
        &&& forall|i: int, b: int|
            0 <= i < self.free@.len() && #[trigger] self.live@.contains_key(b) ==> !overlap(
                (#[trigger] self.free@[i]).base as int,
                self.free@[i].size as int,
                b,
                self.live@[b],
            )
    }

    /// A backend over `pages` pages of `page_size` bytes that start at
    /// `base`, with nothing handed out. Refused when the page size is zero
    /// or the pool does not fit in the address space.
    pub fn new(base: GuestAddr, pages: usize, page_size: usize) -> (r: Option<Self>)
        ensures
            r is Some <==> page_size > 0 && base + pages * page_size <= usize::MAX,
            r matches Some(p) ==> {
                &&& p.wf()
                &&& p.lo() == base
                &&& p.hi() == base + pages * page_size
                &&& p.page() == page_size
                &&& p.watermark() == base
                &&& p.blocks() == Map::<int, int>::empty()
                &&& p.free_runs() == Seq::<FreeBlock>::empty()
            },
    {
        if page_size == 0 {
            return None;
        }
        let len = match pages.checked_mul(page_size) {
            Some(len) => len,
            None => {
                return None;
            },
        };
        let limit = match base.checked_add(len) {
            Some(limit) => limit,
            None => {
                return None;
            },
        };
        assert((pages * page_size) % (page_size as int) == 0) by (nonlinear_arith)
            requires
                page_size > 0,
        ;
        Some(
            PoolBackend {
                base,
                limit,
                page_size,
                top: base,
                free: Vec::new(),
                live: Ghost(Map::empty()),
            },
        )
    }

    /// The size of a page of the pool.
    pub fn page_size(&self) -> (r: usize)
        ensures
            r == self.page(),
    {
        self.page_size
    }

    /// The number of bytes of the pool that are backed by pages: the part
    /// that was ever handed out, rounded up to whole pages.
    pub fn mapped(&self) -> (r: usize)
        requires
            self.wf(),
        ensures
            r == align_up(self.watermark() - self.lo(), self.page()),
    {
        let used: usize = self.top - self.base;
        let rem: usize = used % self.page_size;
        proof {
            lemma_round_within(used as int, (self.limit - self.base) as int, self.page_size as int);
        }
        if rem == 0 {
            used
        } else {
            used + (self.page_size - rem)
        }
    }

    /// What is known of a request before it is made: it is served when a
    /// free run or the untouched end of the pool is large enough, from the
    /// first such run if there is one, and else from the watermark.
    pub proof fn lemma_request(&self, size: int)
        ensures
            self.can_alloc(size) <==> first_fit_of(self.free_runs(), size) < self.free_runs().len()
                || size <= self.hi() - self.watermark(),
            self.next_block(size) == if first_fit_of(self.free_runs(), size)
                < self.free_runs().len() {
                self.free_runs()[first_fit_of(self.free_runs(), size)].base as int
            } else {
                self.watermark()
            },
    {
    }

    /// The index of the first free run of at least `size` bytes.
    fn first_fit(&self, size: usize) -> (r: Option<usize>)
        ensures
            match r {
                Some(i) => i == first_fit_of(self.free@, size as int) && i < self.free@.len()
                    && self.free@[i as int].size >= size,
                None => first_fit_of(self.free@, size as int) == self.free@.len(),
            },
    {
        let ghost least = first_fit_of(self.free@, size as int);
        proof {
            lemma_first_fit_of(self.free@, size as int);
        }
        let mut i: usize = 0;
        while i < self.free.len()
            invariant
                least == first_fit_of(self.free@, size as int),
                i <= least <= self.free@.len(),
                least < self.free@.len() ==> self.free@[least].size >= size,
                forall|k: int| 0 <= k < least ==> (#[trigger] self.free@[k]).size < size,
            decreases self.free@.len() - i,
        {
            if self.free[i].size >= size {
                return Some(i);
            }
            i = i + 1;
        }
        None
    }
}

/// Rounding a length up to whole pages stays inside a pool of whole pages.
proof fn lemma_round_within(used: int, len: int, page: int)
    requires
        page > 0,
        0 <= used <= len,
        len % page == 0,
    ensures
        align_up(used, page) <= len,
{
    lemma_align_up(used, page);
    let up = align_up(used, page);
    if up > len {
        assert(false) by (nonlinear_arith)
            requires
                page > 0,
                up % page == 0,
                len % page == 0,
                used <= len < up,
                up < used + page,
        ;
    }
}

impl Backend for PoolBackend {
    closed spec fn wf(&self) -> bool {
        &&& self.page_size > 0
        &&& self.base <= self.top <= self.limit
        &&& (self.limit - self.base) % (self.page_size as int) == 0
        &&& blocks_valid(self.live@, self.base as int, self.top as int)
        &&& self.free_valid()
    }

    closed spec fn lo(&self) -> int {
        self.base as int
    }

    closed spec fn hi(&self) -> int {
        self.limit as int
    }

    closed spec fn blocks(&self) -> Map<int, int> {
        self.live@
    }

    closed spec fn can_alloc(&self, size: int) -> bool {
        first_fit_of(self.free@, size) < self.free@.len() || size <= self.limit - self.top
    }

    closed spec fn next_block(&self, size: int) -> int {
        let i = first_fit_of(self.free@, size);
        if i < self.free@.len() {
            self.free@[i].base as int
        } else {
            self.top as int
        }
    }

    /// A request is served from the first free run that is large enough,
    /// which shrinks by what was taken or leaves the list, and else from the
    /// watermark, which rises. A request that is refused changes nothing.
    open spec fn serves(&self, size: int, after: &Self) -> bool {
        let runs = self.free_runs();
        let i = first_fit_of(runs, size);
        &&& after.page() == self.page()
        &&& if i < runs.len() {
            &&& after.watermark() == self.watermark()
            &&& after.free_runs() == if runs[i].size == size {
                runs.remove(i)
            } else {
                runs.update(
                    i,
                    FreeBlock {
                        base: (runs[i].base + size) as usize,
                        size: (runs[i].size - size) as usize,
                    },
                )
            }
        } else {
            &&& after.free_runs() == runs
            &&& after.watermark() == if size <= self.hi() - self.watermark() {
                self.watermark() + size
            } else {
                self.watermark()
            }
        }
    }

    /// A block that is taken back goes to the end of the list of free runs.
    open spec fn takes_back(&self, addr: int, size: int, after: &Self) -> bool {
        &&& after.page() == self.page()
        &&& after.watermark() == self.watermark()
        &&& after.free_runs() == self.free_runs().push(
            FreeBlock { base: addr as usize, size: size as usize },
        )
    }

    proof fn lemma_blocks(&self) {
    }

    proof fn lemma_next_block(&self, size: int) {
        lemma_first_fit_of(self.free@, size);
        let i = first_fit_of(self.free@, size);
        if i < self.free@.len() {
            let run = self.free@[i];
            assert(self.base <= run.base && run.base + run.size <= self.top);
        }
    }

    fn start(&self) -> (r: GuestAddr) {
        self.base
    }

    fn end(&self) -> (r: GuestAddr) {
        self.limit
    }

    fn allocate(&mut self, size: usize) -> (r: Option<GuestAddr>) {
        match self.first_fit(size) {
            Some(i) => {
                let run = self.free[i];
                if run.size == size {
                    let _ = self.free.remove(i);
                } else {
                    self.free[i] = FreeBlock { base: run.base + size, size: run.size - size };
                }
                proof {
                    self.live@ = self.live@.insert(run.base as int, size as int);
                }
                Some(run.base)
            },
            None => {
                if size <= self.limit - self.top {
                    let b = self.top;
                    self.top = b + size;
                    proof {
                        self.live@ = self.live@.insert(b as int, size as int);
                    }
                    Some(b)
                } else {
                    None
                }
            },
        }
    }

    fn dealloc(&mut self, addr: GuestAddr, size: usize) {
        self.free.push(FreeBlock { base: addr, size });
        proof {
            self.live@ = self.live@.remove(addr as int);
        }
    }
}

} // verus!
