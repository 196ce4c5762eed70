//! The context that one request is handled in.
use vstd::prelude::*;
use crate::request::{parse, Request};
use crate::response::{initial_response, Response};

verus! {

/// A request together with the response that is being made for it.
#[derive(Debug)]
pub struct Context {
    pub req: Request,
    pub resp: Response,
}

impl Context {
    /// The context that handling `req` starts with.
    pub fn new(req: Request) -> (ctx: Self)
        ensures
            ctx.req == req,
            ctx.resp@ == initial_response(),
    {
        Context { req, resp: Response::default() }
    }

    /// The context for the request that `request` holds.
    ///
    /// The text must hold a request; `try_from_string` is for a text of
    /// which that is not known.
    pub fn from_string(request: &str) -> (ctx: Self)
        requires
            parse(request@) is Ok,
        ensures
            ctx.req@ == parse(request@)->Ok_0,
            ctx.resp@ == initial_response(),
    {
        Context { req: Request::from_string(request).unwrap(), resp: Response::default() }
    }

    /// The context for the request that `request` holds, or what is wrong
    /// with a text that holds none.
    pub fn try_from_string(request: &str) -> (r: Result<Self, String>)
        ensures
            match (parse(request@), r) {
                (Ok(req), Ok(ctx)) => ctx.req@ == req && ctx.resp@ == initial_response(),
                (Err(e), Err(msg)) => msg@ == e,
                _ => false,
            },
    {
        match Request::from_string(request) {
            Ok(_) => Ok(Self::from_string(request)),
            Err(msg) => Err(msg),
        }
    }
}

} // verus!
