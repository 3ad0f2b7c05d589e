//! Rate limiting and request logging for a file server.
//!
//! - [`ratelimit`] decides which request is served next, and when: the smallest ready
//!   response first, as far as a request rate, a bandwidth and a cap on concurrent serves
//!   allow.
//! - [`middleware`] writes the lines of the request log, and says which layers of
//!   middleware surround the handlers.
//! - [`clock`] is the time that both count in.
pub mod clock;
pub mod middleware;
pub mod ratelimit;
