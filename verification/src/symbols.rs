//! Symbols: finding, by name, the address of a function that the runtime
//! hands work on to.

use vstd::prelude::*;

use crate::layout::GuestAddr;

verus! {

/// A way to resolve a function by its name.
pub trait Symbols {
    /// How a failed lookup is reported.
    type Error;

    /// Whether this resolver can find any symbol at all.
    spec fn resolves() -> bool;

    /// The address of the function `name`. A resolver that finds no symbol
    /// at all fails on every name; none returns a null address.
    fn lookup(name: &str) -> (r: Result<GuestAddr, Self::Error>)
        ensures
            !Self::resolves() ==> r is Err,
            r matches Ok(addr) ==> addr != 0,
    ;
}

/// Why a lookup failed.
#[derive(Clone, Copy, Debug, PartialEq, Eq, Structural)]
pub enum NopSymbolsError {
    /// This resolver has no symbols.
    SymbolsNotSupported,
}

/// The resolver of a guest that has no library to hand work on to: it fails
/// on every name.
#[derive(Clone, Copy, Debug)]
pub struct NopSymbols;

impl Symbols for NopSymbols {
    type Error = NopSymbolsError;

    open spec fn resolves() -> bool {
        false
    }

    fn lookup(name: &str) -> (r: Result<GuestAddr, NopSymbolsError>)
        ensures
            r == Err::<GuestAddr, NopSymbolsError>(NopSymbolsError::SymbolsNotSupported),
    {
        Err(NopSymbolsError::SymbolsNotSupported)
    }
}

} // verus!
