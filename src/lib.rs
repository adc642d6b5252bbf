//! An embeddable HTTP/1.1 server engine: a request decoder working on raw
//! bytes, a route table with exact and wildcard matching and a static-file
//! fallback, and a response encoder with content-type inference and optional
//! gzip compression. Reading from and writing to sockets, the file system and
//! the worker threads are left to the embedding program.

pub mod bytes;
pub mod config;
pub mod decode;
pub mod headers;
pub mod http;
pub mod lru_cache;
pub mod middleware;
pub mod request;
pub mod response;
pub mod route;
mod text;

pub use config::{Config, HandlerKind, Method, Reply, Route, Routes};
pub use decode::{decode, Decoded};
pub use headers::HeaderMap;
pub use http::{
    accepts_gzip, build_res, error_response, not_found, prepare, route_request, static_plan,
    static_response, Dispatch, FsProbe, Resolved, StaticPlan,
};
pub use request::{Request, RequestError};
pub use response::Response;
pub use route::{
    BasicGetRoute, BasicPostRoute, GetRouteWithReq, GetRouteWithReqAndRes, PostRouteWithReq,
    PostRouteWithReqAndRes,
};
