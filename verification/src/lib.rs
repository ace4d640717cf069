//! A single-upstream HTTP reverse proxy core: every inbound request is
//! rewritten against one fixed backend target, CORS preflight requests are
//! answered directly, and backend responses are forwarded with permissive
//! CORS headers injected. The modules here hold the request-forwarding and
//! header-rewriting logic; transport and bootstrap live outside the library.

pub mod headers;
pub mod model;
pub mod proxy;
pub mod target;
pub mod text;
