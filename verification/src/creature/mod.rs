//! Creatures: who acts on the node, what they own, and what they keep.
pub mod locks;
pub mod transfers;
pub mod directory;
pub mod types;
pub mod secrets;
pub mod identity;
pub mod login;
pub mod money_laws;
pub mod people_laws;
pub mod signals;
pub mod uploads;
pub mod registry;
pub mod registry_laws;
