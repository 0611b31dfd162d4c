pub mod agent;
pub mod factory;
pub mod market;
pub mod product;
pub mod util;
