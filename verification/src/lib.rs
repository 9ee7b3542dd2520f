pub mod buffer;
pub mod cmd;
pub mod error;
pub mod frame;
pub mod remoting;
pub mod util;
pub mod wire;
pub mod wire_laws;
