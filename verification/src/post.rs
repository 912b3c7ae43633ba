pub mod entity;
pub mod store;
