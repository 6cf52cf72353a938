//! Clock-It: the rules of a class attendance service for lecturers and students.
pub mod numbers;
pub mod text;
pub mod models;
pub mod auth;
pub mod dates;
pub mod classes;
pub mod sessions;
pub mod records;
pub mod enrollment;
pub mod stats;
pub mod server_config;
pub mod class_views;
pub mod display;
pub mod calendar;
pub mod module_rules;
pub mod user_context;
pub mod qr;
