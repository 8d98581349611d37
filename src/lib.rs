pub mod config;
pub mod errors;
pub mod launch;
pub mod manager;
pub mod metadata;
pub mod paginator;
pub mod paths;
pub mod session;
pub mod text;
