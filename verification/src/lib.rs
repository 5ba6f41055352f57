//! Composition of request handlers: the handler capability, middleware
//! layering, two-way alternatives, recovery after an unwinding fault, and the
//! per-method route table.
pub mod handler;
pub mod route;
pub mod types;

pub use handler::after::After;
pub use handler::around::Around;
pub use handler::before::Before;
pub use handler::either::Either;
pub use handler::responder::Responder;
pub use handler::unwind::{Caught, CatchUnwind};
pub use handler::{equivalent, BoxHandler, Handler, Next, Transform};
pub use route::table::Entry;
pub use route::{any, connect, delete, get, head, on, options, patch, post, put, trace, Route};
pub use types::{Error, Header, IntoResponse, Method, Request, RequestView, Response, ResponseView};
