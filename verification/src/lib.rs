//! Verified core of the Roc platform hosts: tagged continuation pointers,
//! the host side of the continuation protocols, the effects Roc calls, and
//! the routing of the benchmark web server.

pub mod bytes;
pub mod continuation;
pub mod decimal;
pub mod effects;
pub mod method;
pub mod panic;
pub mod path;
pub mod routes;
pub mod status;
pub mod tagged;
pub mod template;
pub mod utf8;
