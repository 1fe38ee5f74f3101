//! A small HTTP request router.
//!
//! Routes are registered per method with a path template. A template is a
//! regular expression with named capture groups; it is matched against
//! the whole request path. A request resolves to the first registered
//! route that matches its path and has its method; the named groups of the
//! match are its path parameters, and its query string is parsed into
//! query parameters. A path that no route matches is answered with 404, a
//! path that is routed under other methods only with 405.
//!
//! - `method`: the request methods.
//! - `params`: the parameter stores and the query parser.
//! - `pattern`: path templates and what they capture.
//! - `handler`: handlers, their context, and routes.
//! - `response`: responses and the values that turn into them.
//! - `router`: the route table, lookup and dispatch.
//! - `server`: a ready-made table for trying things out.

pub mod handler;
pub mod method;
pub mod params;
pub mod pattern;
pub mod response;
pub mod router;
pub mod server;
