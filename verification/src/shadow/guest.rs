//! A shadow kept in the runtime's own memory, two bits for each guest byte.

use vstd::prelude::*;

use crate::layout::GuestAddr;
use crate::shadow::{paint, range_tracked, ByteState, Shadow, ShadowError};

verus! {

/// A unit whose eight bytes are all unaddressable.
pub const UNIT_UNADDRESSABLE: u16 = 0x0000;

/// A unit whose eight bytes are all poisoned.
pub const UNIT_POISONED: u16 = 0x5555;

/// A unit whose eight bytes are all addressable.
pub const UNIT_ADDRESSABLE: u16 = 0xaaaa;

/// The two-bit code of byte `j` of a unit.
pub open spec fn code_at(unit: u16, j: u16) -> u16 {
    (unit >> (2 * j) as u16) & 3u16
}

/// The unit with the code of byte `j` replaced by `code`.
pub open spec fn with_code(unit: u16, j: u16, code: u16) -> u16 {
    (unit & !(3u16 << (2 * j) as u16)) | (code << (2 * j) as u16)
}

/// The state that a two-bit code stands for.
pub open spec fn decode(code: u16) -> ByteState {
    if code == 2 {
        ByteState::Addressable
    } else if code == 0 {
        ByteState::Unaddressable
    } else {
        ByteState::Poisoned
    }
}

/// The two-bit code of a state.
pub open spec fn encode(s: ByteState) -> u16 {
    match s {
        ByteState::Unaddressable => 0,
        ByteState::Poisoned => 1,
        ByteState::Addressable => 2,
    }
}

/// The unit whose eight bytes all have state `s`.
pub open spec fn uniform(s: ByteState) -> u16 {
    match s {
        ByteState::Unaddressable => UNIT_UNADDRESSABLE,
        ByteState::Poisoned => UNIT_POISONED,
        ByteState::Addressable => UNIT_ADDRESSABLE,
    }
}

/// The state of the byte at offset `off` from the start of the region.
pub open spec fn state_at(units: Seq<u16>, off: int) -> ByteState {
    decode(code_at(units[off / 8], (off % 8) as u16))
}

proof fn lemma_with_code(unit: u16, j: u16, k: u16, code: u16)
    requires
        j < 8,
        k < 8,
        code < 4,
    ensures
        code_at(with_code(unit, j, code), k) == if j == k {
            code
        } else {
            code_at(unit, k)
        },
{
    assert(((((unit & !(3u16 << (2 * j) as u16)) | (code << (2 * j) as u16)) >> (2 * k) as u16)
        & 3u16) == if j == k {
        code
    } else {
        (unit >> (2 * k) as u16) & 3u16
    }) by (bit_vector)
        requires
            j < 8,
            k < 8,
            code < 4,
    ;
}

proof fn lemma_uniform(s: ByteState, k: u16)
    requires
        k < 8,
    ensures
        decode(code_at(uniform(s), k)) == s,
{
    assert(((0x0000u16 >> (2 * k) as u16) & 3u16) == 0) by (bit_vector)
        requires
            k < 8,
    ;
    assert(((0x5555u16 >> (2 * k) as u16) & 3u16) == 1) by (bit_vector)
        requires
            k < 8,
    ;
    assert(((0xaaaau16 >> (2 * k) as u16) & 3u16) == 2) by (bit_vector)
        requires
            k < 8,
    ;
}

/// The state that a two-bit code stands for.
fn state_of(code: u16) -> (r: ByteState)
    ensures
        r == decode(code),
{
    if code == 2 {
        ByteState::Addressable
    } else if code == 0 {
        ByteState::Unaddressable
    } else {
        ByteState::Poisoned
    }
}

/// The two-bit code of a state.
fn code_of(s: ByteState) -> (r: u16)
    ensures
        r == encode(s),
        r < 4,
        decode(r) == s,
{
    match s {
        ByteState::Unaddressable => 0,
        ByteState::Poisoned => 1,
        ByteState::Addressable => 2,
    }
}

/// The unit whose eight bytes all have state `s`.
fn unit_of(s: ByteState) -> (r: u16)
    ensures
        r == uniform(s),
{
    match s {
        ByteState::Unaddressable => UNIT_UNADDRESSABLE,
        ByteState::Poisoned => UNIT_POISONED,
        ByteState::Addressable => UNIT_ADDRESSABLE,
    }
}

/// Reads the code of byte `j` of a unit.
fn read_code(unit: u16, j: usize) -> (r: u16)
    requires
        j < 8,
    ensures
        r == code_at(unit, j as u16),
{
    let shift: u16 = (2 * j) as u16;
    (unit >> shift) & 3u16
}

/// Writes the code of byte `j` of a unit.
fn write_code(unit: u16, j: usize, code: u16) -> (r: u16)
    requires
        j < 8,
        code < 4,
    ensures
        r == with_code(unit, j as u16, code),
{
    let shift: u16 = (2 * j) as u16;
    (unit & !(3u16 << shift)) | (code << shift)
}

/// A shadow over `[base, base + len)` that stores one unit for every eight
/// bytes and still keeps the state of each byte apart.
pub struct GuestShadow {
    base: GuestAddr,
    len: usize,
    units: Vec<u16>,
}

impl GuestShadow {
    /// A shadow over `[base, base + len)` in which every byte is
    /// unaddressable. Refused when the region does not fit in the address
    /// space.
    pub fn new(base: GuestAddr, len: usize) -> (r: Result<Self, ShadowError>)
        ensures
            r is Ok <==> base + len <= usize::MAX,
            r matches Ok(s) ==> {
                &&& s.wf()
                &&& s.lo() == base
                &&& s.hi() == base + len
                &&& forall|a: int| base <= a < base + len ==> s@[a] == ByteState::Unaddressable
            },
    {
        if len > usize::MAX - base {
            return Err(ShadowError::OutOfRange);
        }
        let count: usize = len / 8 + 1;
        let units: Vec<u16> = vec![UNIT_UNADDRESSABLE; count];
        let s = GuestShadow { base, len, units };
        proof {
            assert forall|a: int| base <= a < base + len implies s@[a]
                == ByteState::Unaddressable by {
                let off = a - base;
                lemma_uniform(ByteState::Unaddressable, (off % 8) as u16);
            }
        }
        Ok(s)
    }

    /// Sets every byte of `[addr, addr + len)` to `s`.
    fn fill(&mut self, addr: GuestAddr, len: usize, s: ByteState) -> (r: Result<(), ShadowError>)
        requires
            old(self).wf(),
        ensures
            final(self).wf(),
            final(self).lo() == old(self).lo(),
            final(self).hi() == old(self).hi(),
            r is Ok <==> range_tracked(old(self).lo(), old(self).hi(), addr as int, len as int),
            r is Ok ==> final(self)@ == paint(old(self)@, addr as int, len as int, s),
            r is Err ==> final(self)@ == old(self)@,
    {
        if len == 0 {
            return Ok(());
        }
        if addr < self.base || addr - self.base > self.len || len > self.len - (addr - self.base) {
            return Err(ShadowError::OutOfRange);
        }
        let first: usize = addr - self.base;
        let end: usize = first + len;
        let code = code_of(s);
        let whole = unit_of(s);
        let mut off: usize = first;
        while off < end
            invariant
                first <= off <= end <= self.len,
                self.base == old(self).base,
                self.len == old(self).len,
                self.units@.len() == old(self).units@.len(),
                self.units@.len() == self.len / 8 + 1,
                code == encode(s),
                code < 4,
                decode(code) == s,
                whole == uniform(s),
                forall|o: int|
                    0 <= o < self.len ==> #[trigger] state_at(self.units@, o) == if first <= o
                        < off {
                        s
                    } else {
                        state_at(old(self).units@, o)
                    },
            decreases end - off,
        {
            let idx: usize = off / 8;
            let j: usize = off % 8;
            let ghost before = self.units@;
            if j == 0 && end - off >= 8 {
                self.units[idx] = whole;
                proof {
                    assert forall|o: int| 0 <= o < self.len implies #[trigger] state_at(
                        self.units@,
                        o,
                    ) == if first <= o < off + 8 {
                        s
                    } else {
                        state_at(old(self).units@, o)
                    } by {
                        if o / 8 == idx as int {
                            lemma_uniform(s, (o % 8) as u16);
                        } else {
                            assert(state_at(self.units@, o) == state_at(before, o));
                        }
                    }
                }
                off = off + 8;
            } else {
                let unit: u16 = self.units[idx];
                self.units[idx] = write_code(unit, j, code);
                proof {
                    assert forall|o: int| 0 <= o < self.len implies #[trigger] state_at(
                        self.units@,
                        o,
                    ) == if first <= o < off + 1 {
                        s
                    } else {
                        state_at(old(self).units@, o)
                    } by {
                        if o / 8 == idx as int {
                            lemma_with_code(unit, j as u16, (o % 8) as u16, code);
                            assert(state_at(before, o) == decode(code_at(unit, (o % 8) as u16)));
                        }
                    }
                }
                off = off + 1;
            }
        }
        Ok(())
    }
}

impl Shadow for GuestShadow {
    closed spec fn wf(&self) -> bool {
        &&& self.base + self.len <= usize::MAX
        &&& self.units@.len() == self.len / 8 + 1
    }

    closed spec fn lo(&self) -> int {
        self.base as int
    }

    closed spec fn hi(&self) -> int {
        self.base + self.len
    }

    closed spec fn view(&self) -> Map<int, ByteState> {
        Map::new(
            |a: int| self.base <= a < self.base + self.len,
            |a: int| state_at(self.units@, a - self.base),
        )
    }

    proof fn lemma_region(&self) {
    }

    fn start(&self) -> (r: GuestAddr) {
        self.base
    }

    fn end(&self) -> (r: GuestAddr) {
        self.base + self.len
    }

    fn poison(&mut self, addr: GuestAddr, len: usize) -> (r: Result<(), ShadowError>) {
        self.fill(addr, len, ByteState::Poisoned)
    }

    fn unpoison(&mut self, addr: GuestAddr, len: usize) -> (r: Result<(), ShadowError>) {
        self.fill(addr, len, ByteState::Addressable)
    }

    fn reset(&mut self, addr: GuestAddr, len: usize) -> (r: Result<(), ShadowError>) {
        self.fill(addr, len, ByteState::Unaddressable)
    }

    fn state(&self, addr: GuestAddr) -> (r: Result<ByteState, ShadowError>) {
        if addr < self.base || addr - self.base >= self.len {
            return Err(ShadowError::OutOfRange);
        }
        let off: usize = addr - self.base;
        Ok(state_of(read_code(self.units[off / 8], off % 8)))
    }

    fn is_poison(&self, addr: GuestAddr, len: usize) -> (r: Result<bool, ShadowError>) {
        if len == 0 {
            return Ok(false);
        }
        if addr < self.base || addr - self.base > self.len || len > self.len - (addr - self.base) {
            return Err(ShadowError::OutOfRange);
        }
        let first: usize = addr - self.base;
        let end: usize = first + len;
        let mut off: usize = first;
        while off < end
            invariant
                first <= off <= end <= self.len,
                first == addr - self.base,
                end == first + len,
                self.wf(),
                forall|o: int|
                    first <= o < off ==> #[trigger] state_at(self.units@, o)
                        == ByteState::Addressable,
            decreases end - off,
        {
            let idx: usize = off / 8;
            let j: usize = off % 8;
            let unit: u16 = self.units[idx];
            if j == 0 && end - off >= 8 && unit == UNIT_ADDRESSABLE {
                proof {
                    assert forall|o: int| first <= o < off + 8 implies #[trigger] state_at(
                        self.units@,
                        o,
                    ) == ByteState::Addressable by {
                        if o >= off {
                            lemma_uniform(ByteState::Addressable, (o % 8) as u16);
                        }
                    }
                }
                off = off + 8;
            } else {
                let code = read_code(unit, j);
                if code != 2 {
                    proof {
                        let a = self.base + off;
                        assert(self@[a] == state_at(self.units@, off as int));
                    }
                    return Ok(true);
                }
                off = off + 1;
            }
        }
        Ok(false)
    }
}

} // verus!
