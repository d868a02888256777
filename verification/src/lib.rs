pub mod db;
pub mod hub;
pub mod json;
pub mod laws;
pub mod notification_bus;
pub mod outside;
pub mod plugin;
pub mod table;
pub mod text;
