pub mod cache;
pub mod decimal;
pub mod frame;
pub mod laws;
pub mod line_protocol;
pub mod server;
pub mod session;
