//! The operations on a pool, one module each. Every operation takes the
//! records it works on in a context of plain values, tests its conditions
//! in a fixed order, and either applies its whole effect or reports the
//! first unmet condition and changes nothing.

pub mod close_pool;
pub mod create_pool;
pub mod distribute;
pub mod forfeit;
pub mod join_pool;
pub mod verify;
