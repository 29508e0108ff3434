//! Core of a pass-through proxy for an R package repository: path
//! classification, header hygiene and the decisions of one exchange.

pub mod artifact;
pub mod classify;
pub mod exchange;
pub mod headers;
pub mod observe;
pub mod pattern;
pub mod shape;
pub mod target;
