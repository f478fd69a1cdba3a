pub mod analyze;
pub mod process;
pub mod server;
