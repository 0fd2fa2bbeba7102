//! Model collaboration without owning the host's event loop or tool permissions.
pub mod adapter;
pub mod assessment;
pub mod binary64;
pub mod configuration;
pub mod contracts;
pub mod cut;
pub mod decision;
pub mod engine;
pub mod events;
pub mod fault;
pub mod identity;
pub mod json;
pub mod model;
pub mod planning;
pub mod router;
pub mod store;
pub mod strategy;
pub mod text;
pub mod tools;
