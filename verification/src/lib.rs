pub mod bridge;
pub mod error;
pub mod frame;
pub mod interop;
pub mod laws;
pub mod metadata;
pub mod method;
pub mod server;
pub mod status;
pub mod stream;
pub mod text;
