//! A round-based commodity market: consumer agents with adaptive price
//! beliefs trade against competing factories. All amounts are fixed-point
//! integers (see [`fixed`]), so every rule of the model is exact.
pub mod entity;
pub mod fixed;
pub mod model;
pub mod random;
pub mod logging;
pub mod text;
