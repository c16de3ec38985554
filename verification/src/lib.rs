//! The decisions of an outbound proxy that sends each connection from an IPv6
//! address of its own.
//!
//! The library opens no socket and starts no process. What takes several
//! steps is a state machine that says what to do next and takes in what came
//! of it.

pub mod address;
pub mod interface_laws;
pub mod lease_laws;
pub mod notation_laws;
pub mod pool;
pub mod pool_course_laws;
pub mod pool_laws;
pub mod proxy;
pub mod proxy_course_laws;
pub mod proxy_laws;
pub mod session;
pub mod session_course_laws;
pub mod session_laws;
pub mod socks5;
pub mod socks5_laws;
pub mod source;
pub mod startup;
pub mod startup_laws;
pub mod subnet;
pub mod text;
