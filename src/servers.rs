pub mod credentials;
pub mod models;
pub mod registry;
pub mod state;
