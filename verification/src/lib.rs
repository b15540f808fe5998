//! Tournament backend rules: bracket layout and generation, result
//! propagation through bracket trees, authentication state and the
//! decisions that the request handlers make.
pub mod accounts;
pub mod auth;
pub mod common;
pub mod generation;
pub mod laws;
pub mod math;
pub mod propagation;
pub mod requests;
pub mod tournaments;
