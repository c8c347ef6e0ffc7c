//! A structured input: a packet of a type, an offset, a length and data,
//! and the bytes that the target reads for it.
//!
//! On the wire a packet is its type as four bytes, its offset and its length
//! as eight bytes each, and its data as they are; every number has its low
//! byte first.

use vstd::prelude::*;

use crate::inputs::{HasLen, HasTargetBytes};

verus! {

/// The number of bytes of a packet on the wire before its data.
pub const HEADER_SIZE: usize = 20;

/// What a packet asks for.
#[derive(Clone, Copy, Debug, PartialEq, Eq, Structural)]
pub enum PacketType {
    Read,
    Write,
    Reset,
}

impl PacketType {
    /// The number that stands for the type on the wire.
    pub open spec fn code(self) -> u32 {
        match self {
            PacketType::Read => 0,
            PacketType::Write => 1,
            PacketType::Reset => 2,
        }
    }

    /// The number that stands for the type on the wire.
    pub fn to_primitive(&self) -> (r: u32)
        ensures
            r == self.code(),
    {
        match self {
            PacketType::Read => 0,
            PacketType::Write => 1,
            PacketType::Reset => 2,
        }
    }
}

impl Default for PacketType {
    fn default() -> (r: Self)
        ensures
            r == PacketType::Read,
    {
        PacketType::Read
    }
}

/// The type of a packet: one that the target knows, or any number, to see
/// what the target makes of a type that it does not know.
#[derive(Clone, Copy, Debug, PartialEq, Eq, Structural)]
pub enum UnsafeEnum {
    Valid(PacketType),
    Invalid(u32),
}

impl UnsafeEnum {
    /// The number that goes on the wire.
    pub open spec fn code(self) -> u32 {
        match self {
            UnsafeEnum::Valid(t) => t.code(),
            UnsafeEnum::Invalid(n) => n,
        }
    }

    /// The number that goes on the wire.
    pub fn to_primitive(&self) -> (r: u32)
        ensures
            r == self.code(),
    {
        match self {
            UnsafeEnum::Valid(t) => t.to_primitive(),
            UnsafeEnum::Invalid(n) => *n,
        }
    }
}

impl Default for UnsafeEnum {
    fn default() -> (r: Self)
        ensures
            r == UnsafeEnum::Valid(PacketType::Read),
    {
        UnsafeEnum::Valid(PacketType::Read)
    }
}

/// The low `width` bytes of `x`, the lowest first.
pub open spec fn le_bytes(x: nat, width: nat) -> Seq<u8>
    decreases width,
{
    if width == 0 {
        Seq::empty()
    } else {
        seq![(x % 256) as u8] + le_bytes(x / 256, (width - 1) as nat)
    }
}

/// `le_bytes` has `width` bytes.
pub proof fn lemma_le_bytes(x: nat, width: nat)
    ensures
        le_bytes(x, width).len() == width,
    decreases width,
{
    if width > 0 {
        lemma_le_bytes(x / 256, (width - 1) as nat);
    }
}

/// Appends the low `width` bytes of `x` to `out`, the lowest first.
fn push_le(out: &mut Vec<u8>, x: u64, width: usize)
    ensures
        final(out)@ == old(out)@ + le_bytes(x as nat, width as nat),
{
    let mut rest: u64 = x;
    let mut i: usize = 0;
    while i < width
        invariant
            i <= width,
            out@ + le_bytes(rest as nat, (width - i) as nat) == old(out)@ + le_bytes(
                x as nat,
                width as nat,
            ),
        decreases width - i,
    {
        out.push((rest % 256) as u8);
        rest = rest / 256;
        i = i + 1;
    }
}

/// A packet.
#[derive(Clone, Debug, Default)]
pub struct PacketData {
    /// What the packet asks for.
    pub typ: UnsafeEnum,
    /// Where in the target's buffer the data belong.
    pub offset: u64,
    /// How many bytes of data the packet claims to carry.
    pub length: u64,
    /// The data.
    pub data: Vec<u8>,
}

impl PacketData {
    /// The packet on the wire.
    pub open spec fn wire(&self) -> Seq<u8> {
        le_bytes(self.typ.code() as nat, 4) + le_bytes(self.offset as nat, 8) + le_bytes(
            self.length as nat,
            8,
        ) + self.data@
    }

    /// Sets the length that the packet claims to the length of its data.
    pub fn fixup(&mut self)
        ensures
            final(self).length == old(self).data@.len(),
            final(self).typ == old(self).typ,
            final(self).offset == old(self).offset,
            final(self).data@ == old(self).data@,
    {
        self.length = self.data.len() as u64;
    }

    /// The number of bytes of the packet on the wire.
    pub fn serialized_size(&self) -> (r: usize)
        requires
            HEADER_SIZE + self.data@.len() <= usize::MAX,
        ensures
            r == self.wire().len(),
            r == HEADER_SIZE + self.data@.len(),
    {
        proof {
            lemma_le_bytes(self.typ.code() as nat, 4);
            lemma_le_bytes(self.offset as nat, 8);
            lemma_le_bytes(self.length as nat, 8);
        }
        HEADER_SIZE + self.data.len()
    }
}

impl HasTargetBytes for PacketData {
    open spec fn target_view(&self) -> Seq<u8> {
        self.wire()
    }

    fn target_bytes(&self) -> (r: Vec<u8>) {
        let mut out: Vec<u8> = Vec::new();
        push_le(&mut out, self.typ.to_primitive() as u64, 4);
        push_le(&mut out, self.offset, 8);
        push_le(&mut out, self.length, 8);
        out.extend_from_slice(self.data.as_slice());
        out
    }
}

impl HasLen for PacketData {
    /// The number of bytes of the packet on the wire, as far as a `usize`
    /// can tell.
    open spec fn spec_len(&self) -> nat {
        if HEADER_SIZE + self.data@.len() <= usize::MAX {
            (HEADER_SIZE + self.data@.len()) as nat
        } else {
            usize::MAX as nat
        }
    }

    fn len(&self) -> (r: usize) {
        match HEADER_SIZE.checked_add(self.data.len()) {
            Some(n) => n,
            None => usize::MAX,
        }
    }

    fn is_empty(&self) -> (r: bool) {
        false
    }
}

} // verus!
