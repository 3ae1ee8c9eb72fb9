//! The route table that every listener serves, and the answer to a request.

use vstd::prelude::*;

use crate::config::{contains_text, views};

verus! {

/// The answer to a request.
#[derive(Clone, Copy, Debug, PartialEq, Eq, Structural)]
pub enum Response {
    /// A registered path, probed with a read request: `200` with body `OK`.
    Healthy,
    /// A path that is not registered: `404` with an empty body.
    NotFound,
    /// A registered path, probed with another method: `405`.
    MethodNotAllowed,
}

/// The status code of a response.
pub open spec fn status_of(r: Response) -> u16 {
    match r {
        Response::Healthy => 200,
        Response::NotFound => 404,
        Response::MethodNotAllowed => 405,
    }
}

/// The body of a response.
pub open spec fn body_of(r: Response) -> Seq<char> {
    match r {
        Response::Healthy => seq!['O', 'K'],
        _ => Seq::empty(),
    }
}

/// How a table of registered paths answers a request for `path`; `read`
/// tells whether the request is a read-style probe (`GET` or `HEAD`).
pub open spec fn response_for(table: Seq<Seq<char>>, path: Seq<char>, read: bool) -> Response {
    if table.contains(path) {
        if read {
            Response::Healthy
        } else {
            Response::MethodNotAllowed
        }
    } else {
        Response::NotFound
    }
}

impl Response {
    /// The HTTP status code.
    pub fn status(&self) -> (r: u16)
        ensures
            r == status_of(*self),
    {
        match self {
            Response::Healthy => 200,
            Response::NotFound => 404,
            Response::MethodNotAllowed => 405,
        }
    }

    /// The plain-text body.
    pub fn body(&self) -> (r: &'static str)
        ensures
            r@ == body_of(*self),
    {
        proof {
            reveal_strlit("OK");
            reveal_strlit("");
        }
        match self {
            Response::Healthy => {
                let b = "OK";
                assert(b@ =~= seq!['O', 'K']);
                b
            },
            _ => {
                let b = "";
                assert(b@ =~= Seq::<char>::empty());
                b
            },
        }
    }
}

/// The paths that a listener answers, each bound to the healthcheck handler.
pub struct RouteTable {
    paths: Vec<String>,
}

impl View for RouteTable {
    type V = Seq<Seq<char>>;

    closed spec fn view(&self) -> Seq<Seq<char>> {
        views(self.paths@)
    }
}

impl RouteTable {
    /// A table that binds each of `paths` to the handler.
    pub fn new(paths: Vec<String>) -> (r: RouteTable)
        ensures
            r@ == views(paths@),
    {
        RouteTable { paths }
    }

    /// The registered paths.
    pub fn paths(&self) -> (r: &Vec<String>)
        ensures
            views(r@) == self@,
    {
        &self.paths
    }

    /// Answers a request for `path`: healthy when the path is registered
    /// exactly and the request is a read-style probe.
    pub fn route(&self, path: &str, read: bool) -> (r: Response)
        ensures
            r == response_for(self@, path@, read),
    {
        let p = path.to_owned();
        if contains_text(&self.paths, &p) {
            if read {
                Response::Healthy
            } else {
                Response::MethodNotAllowed
            }
        } else {
            Response::NotFound
        }
    }
}

} // verus!
