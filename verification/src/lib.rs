//! A memory-safety sanitizer runtime: shadow memory, redzones, a bounded
//! quarantine and allocation tracking around a raw block allocator.
//!
//! - [`shadow`]: the validity state of every byte of a region.
//! - [`allocator`]: the raw allocator, the quarantine, and the front end
//!   that target code allocates through.
//! - [`tracking`] and [`host`]: telling an observer of every allocation that
//!   begins or ends.
//! - [`symbols`]: finding a function of another library by name.
//! - [`runtime`]: the checks of loads and stores, and the switch that turns
//!   them off and on.
//!
//! Beside the runtime stand what a fuzzer needs of its inputs
//! ([`inputs`], [`packet`]) and the registers of one target ([`arm`]).

pub mod allocator;
pub mod arm;
pub mod host;
pub mod inputs;
pub mod layout;
pub mod packet;
pub mod runtime;
pub mod shadow;
pub mod symbols;
pub mod tracking;
