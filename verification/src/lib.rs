pub mod auth;
pub mod config;
pub mod deploy;
pub mod digits;
pub mod error;
pub mod jwt;
pub mod logging;
pub mod model;
pub mod repository;
pub mod security;
pub mod sql;
pub mod store;
pub mod users;
pub mod validators;
