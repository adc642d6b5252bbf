//! Builders for the six route shapes: GET or POST, with a handler that
//! takes nothing, takes the request, or returns a whole response.
use vstd::prelude::*;
use crate::config::{HandlerKind, Method, Route};

verus! {

/// A GET route whose handler shape is chosen by `set_is_args` and
/// `set_is_ret_res`.
pub struct BasicGetRoute<H> {
    path: Option<String>,
    method: Method,
    wildcard: Option<String>,
    is_args: Option<bool>,
    get_body: Option<H>,
    get_body_with: Option<H>,
    get_body_with_res: Option<H>,
    is_ret_res: bool,
}

impl<H> BasicGetRoute<H> {
    pub closed spec fn spec_path(&self) -> Option<String> {
        self.path
    }

    pub closed spec fn spec_method(&self) -> Method {
        self.method
    }

    pub closed spec fn spec_wildcard(&self) -> Option<String> {
        self.wildcard
    }

    pub closed spec fn spec_is_args(&self) -> Option<bool> {
        self.is_args
    }

    pub closed spec fn spec_get_body(&self) -> Option<H> {
        self.get_body
    }

    pub closed spec fn spec_get_body_with(&self) -> Option<H> {
        self.get_body_with
    }

    pub closed spec fn spec_get_body_with_res(&self) -> Option<H> {
        self.get_body_with_res
    }

    pub closed spec fn spec_is_ret_res(&self) -> bool {
        self.is_ret_res
    }

    /// A route with no path and no handler yet, for method GET.
    pub fn new() -> (r: BasicGetRoute<H>)
        ensures
            r.spec_path() is None,
            r.spec_method() == Method::GET,
            r.spec_wildcard() is None,
            r.spec_is_args() is None,
            r.spec_get_body() is None,
            r.spec_get_body_with() is None,
            r.spec_get_body_with_res() is None,
            !r.spec_is_ret_res(),
    {
        BasicGetRoute {
            path: None,
            method: Method::GET,
            wildcard: None,
            is_args: None,
            get_body: None,
            get_body_with: None,
            get_body_with_res: None,
            is_ret_res: false,
        }
    }

    pub fn set_path(self, path: &str) -> (r: BasicGetRoute<H>)
        ensures
            r.spec_path() matches Some(p) && p@ == path@,
            r.spec_method() == self.spec_method(),
            r.spec_wildcard() == self.spec_wildcard(),
            r.spec_is_args() == self.spec_is_args(),
            r.spec_get_body() == self.spec_get_body(),
            r.spec_get_body_with() == self.spec_get_body_with(),
            r.spec_get_body_with_res() == self.spec_get_body_with_res(),
            r.spec_is_ret_res() == self.spec_is_ret_res(),
    {
        let mut s = self;
        s.path = Some(path.to_owned());
        s
    }

    pub fn set_method(self, method: Method) -> (r: BasicGetRoute<H>)
        ensures
            r.spec_method() == method,
            r.spec_path() == self.spec_path(),
            r.spec_wildcard() == self.spec_wildcard(),
            r.spec_is_args() == self.spec_is_args(),
            r.spec_get_body() == self.spec_get_body(),
            r.spec_get_body_with() == self.spec_get_body_with(),
            r.spec_get_body_with_res() == self.spec_get_body_with_res(),
            r.spec_is_ret_res() == self.spec_is_ret_res(),
    {
        let mut s = self;
        s.method = method;
        s
    }

    /// Declares the route a wildcard route whose captured segment is named
    /// `wildcard`.
    pub fn set_wildcard(self, wildcard: String) -> (r: BasicGetRoute<H>)
        ensures
            r.spec_wildcard() == Some(wildcard),
            r.spec_path() == self.spec_path(),
            r.spec_method() == self.spec_method(),
            r.spec_is_args() == self.spec_is_args(),
            r.spec_get_body() == self.spec_get_body(),
            r.spec_get_body_with() == self.spec_get_body_with(),
            r.spec_get_body_with_res() == self.spec_get_body_with_res(),
            r.spec_is_ret_res() == self.spec_is_ret_res(),
    {
        let mut s = self;
        s.wildcard = Some(wildcard);
        s
    }

    pub fn set_is_args(self, is_args: bool) -> (r: BasicGetRoute<H>)
        ensures
            r.spec_is_args() == Some(is_args),
            r.spec_path() == self.spec_path(),
            r.spec_method() == self.spec_method(),
            r.spec_wildcard() == self.spec_wildcard(),
            r.spec_get_body() == self.spec_get_body(),
            r.spec_get_body_with() == self.spec_get_body_with(),
            r.spec_get_body_with_res() == self.spec_get_body_with_res(),
            r.spec_is_ret_res() == self.spec_is_ret_res(),
    {
        let mut s = self;
        s.is_args = Some(is_args);
        s
    }

    pub fn set_body(self, body: H) -> (r: BasicGetRoute<H>)
        ensures
            r.spec_get_body() == Some(body),
            r.spec_path() == self.spec_path(),
            r.spec_method() == self.spec_method(),
            r.spec_wildcard() == self.spec_wildcard(),
            r.spec_is_args() == self.spec_is_args(),
            r.spec_get_body_with() == self.spec_get_body_with(),
            r.spec_get_body_with_res() == self.spec_get_body_with_res(),
            r.spec_is_ret_res() == self.spec_is_ret_res(),
    {
        let mut s = self;
        s.get_body = Some(body);
        s
    }

    pub fn set_body_with(self, body: H) -> (r: BasicGetRoute<H>)
        ensures
            r.spec_get_body_with() == Some(body),
            r.spec_path() == self.spec_path(),
            r.spec_method() == self.spec_method(),
            r.spec_wildcard() == self.spec_wildcard(),
            r.spec_is_args() == self.spec_is_args(),
            r.spec_get_body() == self.spec_get_body(),
            r.spec_get_body_with_res() == self.spec_get_body_with_res(),
            r.spec_is_ret_res() == self.spec_is_ret_res(),
    {
        let mut s = self;
        s.get_body_with = Some(body);
        s
    }

    pub fn set_body_with_res(self, body: H) -> (r: BasicGetRoute<H>)
        ensures
            r.spec_get_body_with_res() == Some(body),
            r.spec_path() == self.spec_path(),
            r.spec_method() == self.spec_method(),
            r.spec_wildcard() == self.spec_wildcard(),
            r.spec_is_args() == self.spec_is_args(),
            r.spec_get_body() == self.spec_get_body(),
            r.spec_get_body_with() == self.spec_get_body_with(),
            r.spec_is_ret_res() == self.spec_is_ret_res(),
    {
        let mut s = self;
        s.get_body_with_res = Some(body);
        s
    }

    pub fn set_is_ret_res(self, is_ret_res: bool) -> (r: BasicGetRoute<H>)
        ensures
            r.spec_is_ret_res() == is_ret_res,
            r.spec_path() == self.spec_path(),
            r.spec_method() == self.spec_method(),
            r.spec_wildcard() == self.spec_wildcard(),
            r.spec_is_args() == self.spec_is_args(),
            r.spec_get_body() == self.spec_get_body(),
            r.spec_get_body_with() == self.spec_get_body_with(),
            r.spec_get_body_with_res() == self.spec_get_body_with_res(),
    {
        let mut s = self;
        s.is_ret_res = is_ret_res;
        s
    }

    /// The handler slot and shape this route uses: the response-returning
    /// handler when `is_ret_res` is set, else the request-taking one when
    /// `is_args` is `Some(true)`, else the one that takes nothing.
    pub open spec fn chosen_kind(&self) -> HandlerKind {
        if self.spec_is_ret_res() {
            HandlerKind::WithRes
        } else if self.spec_is_args() == Some(true) {
            HandlerKind::WithReq
        } else {
            HandlerKind::Plain
        }
    }

    pub open spec fn chosen_handler(&self) -> Option<H> {
        if self.spec_is_ret_res() {
            self.spec_get_body_with_res()
        } else if self.spec_is_args() == Some(true) {
            self.spec_get_body_with()
        } else {
            self.spec_get_body()
        }
    }

    /// The finished route; `None` while the path or the chosen handler is
    /// missing.
    pub fn build(self) -> (r: Option<Route<H>>)
        ensures
            match (self.spec_path(), self.chosen_handler()) {
                (Some(p), Some(h)) => r matches Some(rt) && rt.path == p && rt.method
                    == self.spec_method() && rt.wildcard == self.spec_wildcard() && rt.kind
                    == self.chosen_kind() && rt.handler == h,
                _ => r is None,
            },
    {
        let kind = if self.is_ret_res {
            HandlerKind::WithRes
        } else if matches!(self.is_args, Some(true)) {
            HandlerKind::WithReq
        } else {
            HandlerKind::Plain
        };
        let handler = if self.is_ret_res {
            self.get_body_with_res
        } else if matches!(self.is_args, Some(true)) {
            self.get_body_with
        } else {
            self.get_body
        };
        match (self.path, handler) {
            (Some(path), Some(handler)) => Some(
                Route { method: self.method, path, wildcard: self.wildcard, kind, handler },
            ),
            _ => None,
        }
    }
}

/// A GET route whose handler takes the request and returns the body.
pub struct GetRouteWithReq<H> {
    path: Option<String>,
    method: Method,
    wildcard: Option<String>,
    get_body: Option<H>,
}

impl<H> GetRouteWithReq<H> {
    pub closed spec fn spec_path(&self) -> Option<String> {
        self.path
    }

    pub closed spec fn spec_method(&self) -> Method {
        self.method
    }

    pub closed spec fn spec_wildcard(&self) -> Option<String> {
        self.wildcard
    }

    pub closed spec fn spec_get_body(&self) -> Option<H> {
        self.get_body
    }

    /// A route with no path and no handler yet, for method GET.
    pub fn new() -> (r: GetRouteWithReq<H>)
        ensures
            r.spec_path() is None,
            r.spec_method() == Method::GET,
            r.spec_wildcard() is None,
            r.spec_get_body() is None,
    {
        GetRouteWithReq {
            path: None,
            method: Method::GET,
            wildcard: None,
            get_body: None,
        }
    }

    pub fn set_path(self, path: &str) -> (r: GetRouteWithReq<H>)
        ensures
            r.spec_path() matches Some(p) && p@ == path@,
            r.spec_method() == self.spec_method(),
            r.spec_wildcard() == self.spec_wildcard(),
            r.spec_get_body() == self.spec_get_body(),
    {
        let mut s = self;
        s.path = Some(path.to_owned());
        s
    }

    pub fn set_method(self, method: Method) -> (r: GetRouteWithReq<H>)
        ensures
            r.spec_method() == method,
            r.spec_path() == self.spec_path(),
            r.spec_wildcard() == self.spec_wildcard(),
            r.spec_get_body() == self.spec_get_body(),
    {
        let mut s = self;
        s.method = method;
        s
    }

    /// Declares the route a wildcard route whose captured segment is named
    /// `wildcard`.
    pub fn set_wildcard(self, wildcard: String) -> (r: GetRouteWithReq<H>)
        ensures
            r.spec_wildcard() == Some(wildcard),
            r.spec_path() == self.spec_path(),
            r.spec_method() == self.spec_method(),
            r.spec_get_body() == self.spec_get_body(),
    {
        let mut s = self;
        s.wildcard = Some(wildcard);
        s
    }

    pub fn set_body(self, body: H) -> (r: GetRouteWithReq<H>)
        ensures
            r.spec_get_body() == Some(body),
            r.spec_path() == self.spec_path(),
            r.spec_method() == self.spec_method(),
            r.spec_wildcard() == self.spec_wildcard(),
    {
        let mut s = self;
        s.get_body = Some(body);
        s
    }

    pub fn get_body(&self) -> (r: Option<&H>)
        ensures
            match r {
                Some(h) => self.spec_get_body() == Some(*h),
                None => self.spec_get_body() is None,
            },
    {
        self.get_body.as_ref()
    }

    /// The finished route; `None` while the path or the handler is missing.
    pub fn build(self) -> (r: Option<Route<H>>)
        ensures
            match (self.spec_path(), self.spec_get_body()) {
                (Some(p), Some(h)) => r matches Some(rt) && rt.path == p && rt.method
                    == self.spec_method() && rt.wildcard == self.spec_wildcard() && rt.kind
                    == HandlerKind::WithReq && rt.handler == h,
                _ => r is None,
            },
    {
        match (self.path, self.get_body) {
            (Some(path), Some(handler)) => Some(
                Route {
                    method: self.method,
                    path,
                    wildcard: self.wildcard,
                    kind: HandlerKind::WithReq,
                    handler,
                },
            ),
            _ => None,
        }
    }
}

/// A GET route whose handler takes the request and returns a response.
pub struct GetRouteWithReqAndRes<H> {
    path: Option<String>,
    method: Method,
    wildcard: Option<String>,
    get_body: Option<H>,
}

impl<H> GetRouteWithReqAndRes<H> {
    pub closed spec fn spec_path(&self) -> Option<String> {
        self.path
    }

    pub closed spec fn spec_method(&self) -> Method {
        self.method
    }

    pub closed spec fn spec_wildcard(&self) -> Option<String> {
        self.wildcard
    }

    pub closed spec fn spec_get_body(&self) -> Option<H> {
        self.get_body
    }

    /// A route with no path and no handler yet, for method GET.
    pub fn new() -> (r: GetRouteWithReqAndRes<H>)
        ensures
            r.spec_path() is None,
            r.spec_method() == Method::GET,
            r.spec_wildcard() is None,
            r.spec_get_body() is None,
    {
        GetRouteWithReqAndRes {
            path: None,
            method: Method::GET,
            wildcard: None,
            get_body: None,
        }
    }

    pub fn set_path(self, path: &str) -> (r: GetRouteWithReqAndRes<H>)
        ensures
            r.spec_path() matches Some(p) && p@ == path@,
            r.spec_method() == self.spec_method(),
            r.spec_wildcard() == self.spec_wildcard(),
            r.spec_get_body() == self.spec_get_body(),
    {
        let mut s = self;
        s.path = Some(path.to_owned());
        s
    }

    pub fn set_method(self, method: Method) -> (r: GetRouteWithReqAndRes<H>)
        ensures
            r.spec_method() == method,
            r.spec_path() == self.spec_path(),
            r.spec_wildcard() == self.spec_wildcard(),
            r.spec_get_body() == self.spec_get_body(),
    {
        let mut s = self;
        s.method = method;
        s
    }

    /// Declares the route a wildcard route whose captured segment is named
    /// `wildcard`.
    pub fn set_wildcard(self, wildcard: String) -> (r: GetRouteWithReqAndRes<H>)
        ensures
            r.spec_wildcard() == Some(wildcard),
            r.spec_path() == self.spec_path(),
            r.spec_method() == self.spec_method(),
            r.spec_get_body() == self.spec_get_body(),
    {
        let mut s = self;
        s.wildcard = Some(wildcard);
        s
    }

    pub fn set_body(self, body: H) -> (r: GetRouteWithReqAndRes<H>)
        ensures
            r.spec_get_body() == Some(body),
            r.spec_path() == self.spec_path(),
            r.spec_method() == self.spec_method(),
            r.spec_wildcard() == self.spec_wildcard(),
    {
        let mut s = self;
        s.get_body = Some(body);
        s
    }

    pub fn get_body(&self) -> (r: Option<&H>)
        ensures
            match r {
                Some(h) => self.spec_get_body() == Some(*h),
                None => self.spec_get_body() is None,
            },
    {
        self.get_body.as_ref()
    }

    /// The finished route; `None` while the path or the handler is missing.
    pub fn build(self) -> (r: Option<Route<H>>)
        ensures
            match (self.spec_path(), self.spec_get_body()) {
                (Some(p), Some(h)) => r matches Some(rt) && rt.path == p && rt.method
                    == self.spec_method() && rt.wildcard == self.spec_wildcard() && rt.kind
                    == HandlerKind::WithRes && rt.handler == h,
                _ => r is None,
            },
    {
        match (self.path, self.get_body) {
            (Some(path), Some(handler)) => Some(
                Route {
                    method: self.method,
                    path,
                    wildcard: self.wildcard,
                    kind: HandlerKind::WithRes,
                    handler,
                },
            ),
            _ => None,
        }
    }
}

/// A POST route whose handler shape is chosen by `set_is_args` and
/// `set_is_ret_res`.
pub struct BasicPostRoute<H> {
    path: Option<String>,
    method: Method,
    wildcard: Option<String>,
    is_args: Option<bool>,
    post_body: Option<H>,
    post_body_with: Option<H>,
    post_body_with_res: Option<H>,
    is_ret_res: bool,
}

impl<H> BasicPostRoute<H> {
    pub closed spec fn spec_path(&self) -> Option<String> {
        self.path
    }

    pub closed spec fn spec_method(&self) -> Method {
        self.method
    }

    pub closed spec fn spec_wildcard(&self) -> Option<String> {
        self.wildcard
    }

    pub closed spec fn spec_is_args(&self) -> Option<bool> {
        self.is_args
    }

    pub closed spec fn spec_post_body(&self) -> Option<H> {
        self.post_body
    }

    pub closed spec fn spec_post_body_with(&self) -> Option<H> {
        self.post_body_with
    }

    pub closed spec fn spec_post_body_with_res(&self) -> Option<H> {
        self.post_body_with_res
    }

    pub closed spec fn spec_is_ret_res(&self) -> bool {
        self.is_ret_res
    }

    /// A route with no path and no handler yet, for method POST.
    pub fn new() -> (r: BasicPostRoute<H>)
        ensures
            r.spec_path() is None,
            r.spec_method() == Method::POST,
            r.spec_wildcard() is None,
            r.spec_is_args() is None,
            r.spec_post_body() is None,
            r.spec_post_body_with() is None,
            r.spec_post_body_with_res() is None,
            !r.spec_is_ret_res(),
    {
        BasicPostRoute {
            path: None,
            method: Method::POST,
            wildcard: None,
            is_args: None,
            post_body: None,
            post_body_with: None,
            post_body_with_res: None,
            is_ret_res: false,
        }
    }

    pub fn set_path(self, path: &str) -> (r: BasicPostRoute<H>)
        ensures
            r.spec_path() matches Some(p) && p@ == path@,
            r.spec_method() == self.spec_method(),
            r.spec_wildcard() == self.spec_wildcard(),
            r.spec_is_args() == self.spec_is_args(),
            r.spec_post_body() == self.spec_post_body(),
            r.spec_post_body_with() == self.spec_post_body_with(),
            r.spec_post_body_with_res() == self.spec_post_body_with_res(),
            r.spec_is_ret_res() == self.spec_is_ret_res(),
    {
        let mut s = self;
        s.path = Some(path.to_owned());
        s
    }

    pub fn set_method(self, method: Method) -> (r: BasicPostRoute<H>)
        ensures
            r.spec_method() == method,
            r.spec_path() == self.spec_path(),
            r.spec_wildcard() == self.spec_wildcard(),
            r.spec_is_args() == self.spec_is_args(),
            r.spec_post_body() == self.spec_post_body(),
            r.spec_post_body_with() == self.spec_post_body_with(),
            r.spec_post_body_with_res() == self.spec_post_body_with_res(),
            r.spec_is_ret_res() == self.spec_is_ret_res(),
    {
        let mut s = self;
        s.method = method;
        s
    }

    /// Declares the route a wildcard route whose captured segment is named
    /// `wildcard`.
    pub fn set_wildcard(self, wildcard: String) -> (r: BasicPostRoute<H>)
        ensures
            r.spec_wildcard() == Some(wildcard),
            r.spec_path() == self.spec_path(),
            r.spec_method() == self.spec_method(),
            r.spec_is_args() == self.spec_is_args(),
            r.spec_post_body() == self.spec_post_body(),
            r.spec_post_body_with() == self.spec_post_body_with(),
            r.spec_post_body_with_res() == self.spec_post_body_with_res(),
            r.spec_is_ret_res() == self.spec_is_ret_res(),
    {
        let mut s = self;
        s.wildcard = Some(wildcard);
        s
    }

    pub fn set_is_args(self, is_args: bool) -> (r: BasicPostRoute<H>)
        ensures
            r.spec_is_args() == Some(is_args),
            r.spec_path() == self.spec_path(),
            r.spec_method() == self.spec_method(),
            r.spec_wildcard() == self.spec_wildcard(),
            r.spec_post_body() == self.spec_post_body(),
            r.spec_post_body_with() == self.spec_post_body_with(),
            r.spec_post_body_with_res() == self.spec_post_body_with_res(),
            r.spec_is_ret_res() == self.spec_is_ret_res(),
    {
        let mut s = self;
        s.is_args = Some(is_args);
        s
    }

    pub fn set_body(self, body: H) -> (r: BasicPostRoute<H>)
        ensures
            r.spec_post_body() == Some(body),
            r.spec_path() == self.spec_path(),
            r.spec_method() == self.spec_method(),
            r.spec_wildcard() == self.spec_wildcard(),
            r.spec_is_args() == self.spec_is_args(),
            r.spec_post_body_with() == self.spec_post_body_with(),
            r.spec_post_body_with_res() == self.spec_post_body_with_res(),
            r.spec_is_ret_res() == self.spec_is_ret_res(),
    {
        let mut s = self;
        s.post_body = Some(body);
        s
    }

    pub fn set_body_with(self, body: H) -> (r: BasicPostRoute<H>)
        ensures
            r.spec_post_body_with() == Some(body),
            r.spec_path() == self.spec_path(),
            r.spec_method() == self.spec_method(),
            r.spec_wildcard() == self.spec_wildcard(),
            r.spec_is_args() == self.spec_is_args(),
            r.spec_post_body() == self.spec_post_body(),
            r.spec_post_body_with_res() == self.spec_post_body_with_res(),
            r.spec_is_ret_res() == self.spec_is_ret_res(),
    {
        let mut s = self;
        s.post_body_with = Some(body);
        s
    }

    pub fn set_body_with_res(self, body: H) -> (r: BasicPostRoute<H>)
        ensures
            r.spec_post_body_with_res() == Some(body),
            r.spec_path() == self.spec_path(),
            r.spec_method() == self.spec_method(),
            r.spec_wildcard() == self.spec_wildcard(),
            r.spec_is_args() == self.spec_is_args(),
            r.spec_post_body() == self.spec_post_body(),
            r.spec_post_body_with() == self.spec_post_body_with(),
            r.spec_is_ret_res() == self.spec_is_ret_res(),
    {
        let mut s = self;
        s.post_body_with_res = Some(body);
        s
    }

    pub fn set_is_ret_res(self, is_ret_res: bool) -> (r: BasicPostRoute<H>)
        ensures
            r.spec_is_ret_res() == is_ret_res,
            r.spec_path() == self.spec_path(),
            r.spec_method() == self.spec_method(),
            r.spec_wildcard() == self.spec_wildcard(),
            r.spec_is_args() == self.spec_is_args(),
            r.spec_post_body() == self.spec_post_body(),
            r.spec_post_body_with() == self.spec_post_body_with(),
            r.spec_post_body_with_res() == self.spec_post_body_with_res(),
    {
        let mut s = self;
        s.is_ret_res = is_ret_res;
        s
    }

    /// The handler slot and shape this route uses: the response-returning
    /// handler when `is_ret_res` is set, else the request-taking one when
    /// `is_args` is `Some(true)`, else the one that takes nothing.
    pub open spec fn chosen_kind(&self) -> HandlerKind {
        if self.spec_is_ret_res() {
            HandlerKind::WithRes
        } else if self.spec_is_args() == Some(true) {
            HandlerKind::WithReq
        } else {
            HandlerKind::Plain
        }
    }

    pub open spec fn chosen_handler(&self) -> Option<H> {
        if self.spec_is_ret_res() {
            self.spec_post_body_with_res()
        } else if self.spec_is_args() == Some(true) {
            self.spec_post_body_with()
        } else {
            self.spec_post_body()
        }
    }

    /// The finished route; `None` while the path or the chosen handler is
    /// missing.
    pub fn build(self) -> (r: Option<Route<H>>)
        ensures
            match (self.spec_path(), self.chosen_handler()) {
                (Some(p), Some(h)) => r matches Some(rt) && rt.path == p && rt.method
                    == self.spec_method() && rt.wildcard == self.spec_wildcard() && rt.kind
                    == self.chosen_kind() && rt.handler == h,
                _ => r is None,
            },
    {
        let kind = if self.is_ret_res {
            HandlerKind::WithRes
        } else if matches!(self.is_args, Some(true)) {
            HandlerKind::WithReq
        } else {
            HandlerKind::Plain
        };
        let handler = if self.is_ret_res {
            self.post_body_with_res
        } else if matches!(self.is_args, Some(true)) {
            self.post_body_with
        } else {
            self.post_body
        };
        match (self.path, handler) {
            (Some(path), Some(handler)) => Some(
                Route { method: self.method, path, wildcard: self.wildcard, kind, handler },
            ),
            _ => None,
        }
    }
}

/// A POST route whose handler takes the request and returns the body.
pub struct PostRouteWithReq<H> {
    path: Option<String>,
    method: Method,
    wildcard: Option<String>,
    post_body: Option<H>,
}

impl<H> PostRouteWithReq<H> {
    pub closed spec fn spec_path(&self) -> Option<String> {
        self.path
    }

    pub closed spec fn spec_method(&self) -> Method {
        self.method
    }

    pub closed spec fn spec_wildcard(&self) -> Option<String> {
        self.wildcard
    }

    pub closed spec fn spec_post_body(&self) -> Option<H> {
        self.post_body
    }

    /// A route with no path and no handler yet, for method POST.
    pub fn new() -> (r: PostRouteWithReq<H>)
        ensures
            r.spec_path() is None,
            r.spec_method() == Method::POST,
            r.spec_wildcard() is None,
            r.spec_post_body() is None,
    {
        PostRouteWithReq {
            path: None,
            method: Method::POST,
            wildcard: None,
            post_body: None,
        }
    }

    pub fn set_path(self, path: &str) -> (r: PostRouteWithReq<H>)
        ensures
            r.spec_path() matches Some(p) && p@ == path@,
            r.spec_method() == self.spec_method(),
            r.spec_wildcard() == self.spec_wildcard(),
            r.spec_post_body() == self.spec_post_body(),
    {
        let mut s = self;
        s.path = Some(path.to_owned());
        s
    }

    pub fn set_method(self, method: Method) -> (r: PostRouteWithReq<H>)
        ensures
            r.spec_method() == method,
            r.spec_path() == self.spec_path(),
            r.spec_wildcard() == self.spec_wildcard(),
            r.spec_post_body() == self.spec_post_body(),
    {
        let mut s = self;
        s.method = method;
        s
    }

    /// Declares the route a wildcard route whose captured segment is named
    /// `wildcard`.
    pub fn set_wildcard(self, wildcard: String) -> (r: PostRouteWithReq<H>)
        ensures
            r.spec_wildcard() == Some(wildcard),
            r.spec_path() == self.spec_path(),
            r.spec_method() == self.spec_method(),
            r.spec_post_body() == self.spec_post_body(),
    {
        let mut s = self;
        s.wildcard = Some(wildcard);
        s
    }

    pub fn set_body(self, body: H) -> (r: PostRouteWithReq<H>)
        ensures
            r.spec_post_body() == Some(body),
            r.spec_path() == self.spec_path(),
            r.spec_method() == self.spec_method(),
            r.spec_wildcard() == self.spec_wildcard(),
    {
        let mut s = self;
        s.post_body = Some(body);
        s
    }

    /// The finished route; `None` while the path or the handler is missing.
    pub fn build(self) -> (r: Option<Route<H>>)
        ensures
            match (self.spec_path(), self.spec_post_body()) {
                (Some(p), Some(h)) => r matches Some(rt) && rt.path == p && rt.method
                    == self.spec_method() && rt.wildcard == self.spec_wildcard() && rt.kind
                    == HandlerKind::WithReq && rt.handler == h,
                _ => r is None,
            },
    {
        match (self.path, self.post_body) {
            (Some(path), Some(handler)) => Some(
                Route {
                    method: self.method,
                    path,
                    wildcard: self.wildcard,
                    kind: HandlerKind::WithReq,
                    handler,
                },
            ),
            _ => None,
        }
    }
}

/// A POST route whose handler takes the request and returns a response.
pub struct PostRouteWithReqAndRes<H> {
    path: Option<String>,
    method: Method,
    wildcard: Option<String>,
    post_body: Option<H>,
}

impl<H> PostRouteWithReqAndRes<H> {
    pub closed spec fn spec_path(&self) -> Option<String> {
        self.path
    }

    pub closed spec fn spec_method(&self) -> Method {
        self.method
    }

    pub closed spec fn spec_wildcard(&self) -> Option<String> {
        self.wildcard
    }

    pub closed spec fn spec_post_body(&self) -> Option<H> {
        self.post_body
    }

    /// A route with no path and no handler yet, for method POST.
    pub fn new() -> (r: PostRouteWithReqAndRes<H>)
        ensures
            r.spec_path() is None,
            r.spec_method() == Method::POST,
            r.spec_wildcard() is None,
            r.spec_post_body() is None,
    {
        PostRouteWithReqAndRes {
            path: None,
            method: Method::POST,
            wildcard: None,
            post_body: None,
        }
    }

    pub fn set_path(self, path: &str) -> (r: PostRouteWithReqAndRes<H>)
        ensures
            r.spec_path() matches Some(p) && p@ == path@,
            r.spec_method() == self.spec_method(),
            r.spec_wildcard() == self.spec_wildcard(),
            r.spec_post_body() == self.spec_post_body(),
    {
        let mut s = self;
        s.path = Some(path.to_owned());
        s
    }

    pub fn set_method(self, method: Method) -> (r: PostRouteWithReqAndRes<H>)
        ensures
            r.spec_method() == method,
            r.spec_path() == self.spec_path(),
            r.spec_wildcard() == self.spec_wildcard(),
            r.spec_post_body() == self.spec_post_body(),
    {
        let mut s = self;
        s.method = method;
        s
    }

    /// Declares the route a wildcard route whose captured segment is named
    /// `wildcard`.
    pub fn set_wildcard(self, wildcard: String) -> (r: PostRouteWithReqAndRes<H>)
        ensures
            r.spec_wildcard() == Some(wildcard),
            r.spec_path() == self.spec_path(),
            r.spec_method() == self.spec_method(),
            r.spec_post_body() == self.spec_post_body(),
    {
        let mut s = self;
        s.wildcard = Some(wildcard);
        s
    }

    pub fn set_body(self, body: H) -> (r: PostRouteWithReqAndRes<H>)
        ensures
            r.spec_post_body() == Some(body),
            r.spec_path() == self.spec_path(),
            r.spec_method() == self.spec_method(),
            r.spec_wildcard() == self.spec_wildcard(),
    {
        let mut s = self;
        s.post_body = Some(body);
        s
    }

    /// The finished route; `None` while the path or the handler is missing.
    pub fn build(self) -> (r: Option<Route<H>>)
        ensures
            match (self.spec_path(), self.spec_post_body()) {
                (Some(p), Some(h)) => r matches Some(rt) && rt.path == p && rt.method
                    == self.spec_method() && rt.wildcard == self.spec_wildcard() && rt.kind
                    == HandlerKind::WithRes && rt.handler == h,
                _ => r is None,
            },
    {
        match (self.path, self.post_body) {
            (Some(path), Some(handler)) => Some(
                Route {
                    method: self.method,
                    path,
                    wildcard: self.wildcard,
                    kind: HandlerKind::WithRes,
                    handler,
                },
            ),
            _ => None,
        }
    }
}

} // verus!
