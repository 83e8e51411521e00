//! State of the random lottery contract in two byte layouts, and the way
//! from the legacy layout to the current one.
//!
//! `old_rl` reads a legacy state from a buffer, `new_rl` carries it over and
//! lays the current state out, `migration` does both in one call. `common`
//! holds what both layouts share, `wire` the little-endian fields they are
//! made of. `old_rl_laws` and `new_rl_laws` prove that what is written can
//! be read back.

pub mod common;
pub mod migration;
pub mod new_rl;
pub mod new_rl_laws;
pub mod old_rl;
pub mod old_rl_laws;
pub mod wire;
