pub mod config;
pub mod key;
pub mod laws;
pub mod manager;
pub mod model;
pub mod response;
pub mod store;
