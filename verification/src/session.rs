pub mod entity;
pub mod store;
pub mod table;
