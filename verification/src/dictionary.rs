//! The application layer: the operations the front-end adapters call.

pub mod application;
