//! The allocator: a raw block allocator, a quarantine for freed blocks, and
//! the front end that guards every allocation with redzones.

pub mod backend;
pub mod consistency;
pub mod frontend;
pub mod quarantine;
pub mod record;
