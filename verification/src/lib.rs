//! A small multi-tenant community-state store.
//!
//! The store tracks registered users, named community spaces with
//! membership, posts scoped to those spaces, and governance proposals with
//! single-choice voting. Every mutating or reading operation takes the
//! authenticated caller's identity (and, where recorded, a logical
//! timestamp) as an explicit parameter; the hosting environment supplies
//! both.

pub mod assoc;
pub mod entities;
pub mod identity;
pub mod laws;
pub mod store;
