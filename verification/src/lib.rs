pub mod digest;
pub mod endpoint;
pub mod num;
pub mod order;
pub mod api;
pub mod auth;
pub mod config;
pub mod exif;
pub mod paths;
pub mod pattern;
pub mod scanner;
pub mod server;
pub mod text;
pub mod thumbnail;
pub mod timeline;
