//! Inputs: what is sent to a target for one execution, and the converters
//! that turn an input into the bytes that the target reads.

use core::marker::PhantomData;
use vstd::prelude::*;

verus! {

/// Has a length.
pub trait HasLen {
    /// The length, as a number.
    spec fn spec_len(&self) -> nat;

    /// The length.
    fn len(&self) -> (r: usize)
        ensures
            r == self.spec_len(),
    ;

    /// Whether the length is zero.
    fn is_empty(&self) -> (r: bool)
        ensures
            r == (self.spec_len() == 0),
    ;
}

/// An input that is a string of bytes.
#[derive(Debug, Default, Hash)]
pub struct BytesInput {
    bytes: Vec<u8>,
}

impl View for BytesInput {
    type V = Seq<u8>;

    closed spec fn view(&self) -> Seq<u8> {
        self.bytes@
    }
}

impl BytesInput {
    /// The input that holds `bytes`.
    pub fn new(bytes: Vec<u8>) -> (r: Self)
        ensures
            r@ == bytes@,
    {
        BytesInput { bytes }
    }

    /// The bytes of the input.
    pub fn into_inner(self) -> (r: Vec<u8>)
        ensures
            r@ == self@,
    {
        self.bytes
    }
}

impl HasLen for BytesInput {
    closed spec fn spec_len(&self) -> nat {
        self.bytes@.len()
    }

    fn len(&self) -> (r: usize) {
        self.bytes.len()
    }

    fn is_empty(&self) -> (r: bool) {
        self.bytes.len() == 0
    }
}

/// Has a byte representation that can be written to a target. The
/// representation need not allow the input to be read back.
pub trait HasTargetBytes {
    /// The bytes for the target.
    spec fn target_view(&self) -> Seq<u8>;

    /// The bytes for the target.
    fn target_bytes(&self) -> (r: Vec<u8>)
        ensures
            r@ == self.target_view(),
    ;
}

impl HasTargetBytes for BytesInput {
    open spec fn target_view(&self) -> Seq<u8> {
        self@
    }

    fn target_bytes(&self) -> (r: Vec<u8>) {
        self.bytes.clone()
    }
}

/// Turns an input of type `I` into the bytes that a harness sends to the
/// target.
pub trait ToTargetBytes<I> {
    /// The bytes that the converter, as it stands, makes of `input`.
    spec fn converted(&self, input: &I) -> Seq<u8>;

    /// The bytes for `input`.
    fn to_target_bytes(&mut self, input: &I) -> (r: Vec<u8>)
        ensures
            r@ == old(self).converted(input),
    ;
}

/// Converts between two input types.
pub trait InputConverter {
    /// What to convert from.
    type From;

    /// What to convert to.
    type To;

    /// How a failed conversion is reported.
    type Error;

    /// Converts `input`.
    fn convert(&mut self, input: Self::From) -> Result<Self::To, Self::Error>;
}

/// Converts any input to a [`BytesInput`] with a [`ToTargetBytes`].
#[derive(Debug)]
pub struct TargetBytesInputConverter<I, T> {
    to_bytes_converter: T,
    phantom: PhantomData<I>,
}

impl<I, T> TargetBytesInputConverter<I, T> {
    /// The converter to target bytes that does the work.
    pub closed spec fn inner(&self) -> T {
        self.to_bytes_converter
    }

    /// A converter that makes a [`BytesInput`] of what
    /// `to_target_bytes_converter` returns.
    pub fn new(to_target_bytes_converter: T) -> (r: Self)
        ensures
            r.inner() == to_target_bytes_converter,
    {
        Self { to_bytes_converter: to_target_bytes_converter, phantom: PhantomData }
    }

    /// The bytes input that holds what the converter makes of `input`.
    pub fn convert_input(&mut self, input: I) -> (r: BytesInput) where T: ToTargetBytes<I>
        ensures
            r@ == old(self).inner().converted(&input),
    {
        BytesInput::new(self.to_bytes_converter.to_target_bytes(&input))
    }
}

impl<I, T> From<T> for TargetBytesInputConverter<I, T> {
    fn from(to_bytes_converter: T) -> (r: Self) {
        Self::new(to_bytes_converter)
    }
}

impl<I, T> vstd::std_specs::convert::FromSpecImpl<T> for TargetBytesInputConverter<I, T> {
    open spec fn obeys_from_spec() -> bool {
        true
    }

    closed spec fn from_spec(v: T) -> Self {
        TargetBytesInputConverter { to_bytes_converter: v, phantom: PhantomData }
    }
}

impl<I, T> InputConverter for TargetBytesInputConverter<I, T> where T: ToTargetBytes<I> {
    type From = I;

    type To = BytesInput;

    type Error = core::convert::Infallible;

    /// Never fails: the result holds what the converter makes of `input`.
    fn convert(&mut self, input: I) -> (r: Result<BytesInput, core::convert::Infallible>)
        ensures
            r matches Ok(b) && b@ == old(self).inner().converted(&input),
    {
        Ok(self.convert_input(input))
    }
}

/// An input with nothing in it, for tests.
#[derive(Copy, Clone, Debug, Default, Hash)]
pub struct NopInput {}

impl NopInput {
    /// A new `NopInput`.
    #[must_use]
    pub fn new() -> (r: Self)
        ensures
            r == (NopInput {  }),
    {
        Self {  }
    }
}

impl HasTargetBytes for NopInput {
    /// A single zero byte.
    open spec fn target_view(&self) -> Seq<u8> {
        seq![0u8]
    }

    fn target_bytes(&self) -> (r: Vec<u8>) {
        let mut bytes: Vec<u8> = Vec::new();
        bytes.push(0);
        bytes
    }
}

impl HasLen for NopInput {
    open spec fn spec_len(&self) -> nat {
        0
    }

    fn len(&self) -> (r: usize) {
        0
    }

    fn is_empty(&self) -> (r: bool) {
        true
    }
}

/// The converter that hands out the target bytes of the input as they are.
#[derive(Debug, Copy, Clone, Default)]
pub struct NopToTargetBytes;

impl NopToTargetBytes {
    /// A new `NopToTargetBytes`.
    #[must_use]
    pub fn new() -> (r: Self)
        ensures
            r == NopToTargetBytes,
    {
        Self
    }
}

impl<I> ToTargetBytes<I> for NopToTargetBytes where I: HasTargetBytes {
    open spec fn converted(&self, input: &I) -> Seq<u8> {
        input.target_view()
    }

    fn to_target_bytes(&mut self, input: &I) -> (r: Vec<u8>) {
        input.target_bytes()
    }
}

/// Holds bytes that a mutator may read and change in place.
pub trait HasMutatorBytes: HasLen {
    /// The bytes.
    spec fn mutator_view(&self) -> Seq<u8>;

    /// The bytes.
    fn mutator_bytes(&self) -> (r: &[u8])
        ensures
            r@ == self.mutator_view(),
    ;

    /// The bytes, to change them in place.
    fn mutator_bytes_mut(&mut self) -> (r: &mut [u8])
        ensures
            r@ == old(self).mutator_view(),
            final(self).mutator_view() == final(r)@,
    ;
}

impl HasLen for Vec<u8> {
    open spec fn spec_len(&self) -> nat {
        self@.len()
    }

    fn len(&self) -> (r: usize) {
        Vec::len(self)
    }

    fn is_empty(&self) -> (r: bool) {
        Vec::len(self) == 0
    }
}

impl HasMutatorBytes for Vec<u8> {
    open spec fn mutator_view(&self) -> Seq<u8> {
        self@
    }

    fn mutator_bytes(&self) -> (r: &[u8]) {
        self.as_slice()
    }

    fn mutator_bytes_mut(&mut self) -> (r: &mut [u8]) {
        self.as_mut_slice()
    }
}

/// A buffer whose length can change under a mutator.
pub trait ResizableMutator<T> {
    /// The content of the buffer.
    spec fn content(&self) -> Seq<T>;

    /// Cuts the buffer down to `new_len` items, or fills it up to `new_len`
    /// items with `value`.
    fn resize(&mut self, new_len: usize, value: T)
        ensures
            final(self).content().len() == new_len,
            forall|i: int|
                0 <= i < new_len ==> #[trigger] final(self).content()[i] == if i < old(
                    self,
                ).content().len() {
                    old(self).content()[i]
                } else {
                    value
                },
    ;

    /// Appends `items` to the buffer.
    fn extend(&mut self, items: &[T])
        ensures
            final(self).content() == old(self).content() + items@,
    ;

    /// Replaces the items from `start` to `end` with `replace_with`, and
    /// returns the removed items.
    fn splice(&mut self, start: usize, end: usize, replace_with: Vec<T>) -> (removed: Vec<T>)
        requires
            start <= end <= old(self).content().len(),
        ensures
            removed@ == old(self).content().subrange(start as int, end as int),
            final(self).content() == old(self).content().subrange(0, start as int)
                + replace_with@ + old(self).content().subrange(
                end as int,
                old(self).content().len() as int,
            ),
    ;

    /// Removes the items from `start` to `end` and returns them.
    fn drain(&mut self, start: usize, end: usize) -> (removed: Vec<T>)
        requires
            start <= end <= old(self).content().len(),
        ensures
            removed@ == old(self).content().subrange(start as int, end as int),
            final(self).content() == old(self).content().subrange(0, start as int) + old(
                self,
            ).content().subrange(end as int, old(self).content().len() as int),
    ;
}

impl<T> ResizableMutator<T> for Vec<T> where T: Copy {
    open spec fn content(&self) -> Seq<T> {
        self@
    }

    fn resize(&mut self, new_len: usize, value: T) {
        if new_len <= self.len() {
            self.truncate(new_len);
        } else {
            while self.len() < new_len
                invariant
                    old(self)@.len() <= self@.len() <= new_len,
                    forall|i: int|
                        0 <= i < self@.len() ==> #[trigger] self@[i] == if i < old(self)@.len() {
                            old(self)@[i]
                        } else {
                            value
                        },
                decreases new_len - self@.len(),
            {
                self.push(value);
            }
        }
    }

    fn extend(&mut self, items: &[T]) {
        let mut i: usize = 0;
        while i < items.len()
            invariant
                i <= items@.len(),
                self@ == old(self)@ + items@.subrange(0, i as int),
            decreases items@.len() - i,
        {
            self.push(items[i]);
            i = i + 1;
        }
    }

    fn splice(&mut self, start: usize, end: usize, replace_with: Vec<T>) -> (removed: Vec<T>) {
        let mut incoming = replace_with;
        let mut removed = self.split_off(start);
        let mut rest = removed.split_off(end - start);
        self.append(&mut incoming);
        self.append(&mut rest);
        assert(self@ =~= old(self)@.subrange(0, start as int) + replace_with@ + old(self)@.subrange(
            end as int,
            old(self)@.len() as int,
        ));
        removed
    }

    fn drain(&mut self, start: usize, end: usize) -> (removed: Vec<T>) {
        let mut removed = self.split_off(start);
        let mut rest = removed.split_off(end - start);
        self.append(&mut rest);
        removed
    }
}

} // verus!
