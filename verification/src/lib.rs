pub mod error;
pub mod options;
pub mod strmap;
pub mod text;
pub mod types;
pub mod platform;
pub mod watch;
pub mod guard;
pub mod bindings;
