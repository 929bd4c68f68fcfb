//! The entry domain: the stored value object, the persistence contract, and
//! the in-memory repository this crate provides.

pub mod application;
pub mod domain;
pub mod repository;
