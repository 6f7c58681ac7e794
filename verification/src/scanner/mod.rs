pub mod manifest;
pub mod walk;
pub mod watcher;
