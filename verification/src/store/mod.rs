//! Stores: who belongs to them, what members may do, and what is signalled in them.
pub mod permissions;
pub mod membership;
pub mod signals;
pub mod signal_laws;
pub mod removal_laws;
