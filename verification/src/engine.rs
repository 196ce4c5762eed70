//! The engine: a root blueprint, and the handling of one request with it.
//!
//! Handling a request is reading it, finding the handler registered for its
//! method and path, and letting that handler make the response. A text that
//! holds no request is answered with `400`, a request without a handler
//! with `404`.
use vstd::prelude::*;
use vstd::string::StringExecFns;
use crate::blueprint::{Blueprint, Handler};
use crate::context::Context;
use crate::request::{parse, HttpMethod, Request};
use crate::response::{initial_response, rendered, ContentType, Response, ResponseView};
use crate::routes::looked_up;

verus! {

/// The answer to a request for which no handler is registered.
pub open spec fn not_found() -> ResponseView {
    ResponseView {
        status_code: 404,
        status: "Not Found"@,
        content_type: ContentType::Text,
        body: "Not Found"@,
    }
}

/// The answer to a text that holds no request.
pub open spec fn bad_request() -> ResponseView {
    ResponseView {
        status_code: 400,
        status: "Bad Request"@,
        content_type: ContentType::Text,
        body: "Bad Request"@,
    }
}

/// An address to serve on and the routes to serve there.
#[derive(Debug)]
pub struct Engine<H> {
    addr: String,
    bp: Blueprint<H>,
}

impl<H> View for Engine<H> {
    type V = Map<(HttpMethod, Seq<char>), H>;

    open spec fn view(&self) -> Map<(HttpMethod, Seq<char>), H> {
        self.root_view()@
    }
}

impl<H> Engine<H> {
    /// The address to serve on.
    pub closed spec fn addr_view(&self) -> Seq<char> {
        self.addr@
    }

    /// The root blueprint.
    pub closed spec fn root_view(&self) -> Blueprint<H> {
        self.bp
    }

    /// The description of the engine: its address and the description of
    /// its root blueprint.
    pub open spec fn described(&self) -> Seq<char> {
        "Engine { addr: \""@ + self.addr_view() + "\", bp: "@ + self.root_view().described()
            + " }"@
    }

    /// An engine for the address `addr`, without routes; its root blueprint
    /// is named `root` and has the prefix `/`.
    pub fn default(addr: &str) -> (e: Self)
        ensures
            e.addr_view() == addr@,
            e@ == Map::<(HttpMethod, Seq<char>), H>::empty(),
            forall|m: HttpMethod| #[trigger] e.root_view().keys(m) == Seq::<Seq<char>>::empty(),
            e.root_view().prefix_view() == seq!['/'],
            e.root_view().name_view() == "root"@,
    {
        proof {
            reveal_strlit("/");
        }
        match Blueprint::new("root", "/") {
            Ok(bp) => Engine { addr: String::from_str(addr), bp },
            Err(_) => vstd::pervasive::unreached(),
        }
    }

    /// The address to serve on.
    pub fn addr(&self) -> (s: &str)
        ensures
            s@ == self.addr_view(),
    {
        self.addr.as_str()
    }

    /// The root blueprint.
    pub fn root(&self) -> (bp: &Blueprint<H>)
        ensures
            *bp == self.root_view(),
    {
        &self.bp
    }

    /// The description of the engine: its address and the description of
    /// its root blueprint.
    pub fn describe(&self) -> (out: String)
        ensures
            out@ == self.described(),
    {
        let mut out: String = String::from_str("Engine { addr: \"");
        out.append(self.addr.as_str());
        out.append("\", bp: ");
        out.append(self.bp.describe().as_str());
        out.append(" }");
        out
    }

    /// Registers `handler` for `POST` requests to `path` in the root blueprint.
    pub fn post(&mut self, path: &str, handler: H)
        ensures
            Blueprint::added(
                old(self).root_view(),
                final(self).root_view(),
                HttpMethod::POST,
                path@,
                handler,
            ),
            final(self).addr_view() == old(self).addr_view(),
    {
        self.bp.post(path, handler);
    }

    /// Registers `handler` for `GET` requests to `path` in the root blueprint.
    pub fn get(&mut self, path: &str, handler: H)
        ensures
            Blueprint::added(
                old(self).root_view(),
                final(self).root_view(),
                HttpMethod::GET,
                path@,
                handler,
            ),
            final(self).addr_view() == old(self).addr_view(),
    {
        self.bp.get(path, handler);
    }

    /// Takes the routes of `blueprint` over into the root blueprint, each
    /// under the key that it has in `blueprint`.
    pub fn register_blueprint(&mut self, blueprint: &Blueprint<H>) where H: Clone
        ensures
            Blueprint::took_over(old(self).root_view(), *blueprint, final(self).root_view()),
            final(self).addr_view() == old(self).addr_view(),
    {
        self.bp.register_blueprint(blueprint);
    }

    /// Lets the handler that `bp` holds for the request in `ctx` make the
    /// response: the context is left as that handler leaves it. Where `bp`
    /// holds none, the request is left as it is and the response is `404
    /// Not Found`.
    pub fn dispatch(bp: &Blueprint<H>, ctx: &mut Context) where H: Handler
        ensures
            match looked_up(bp@, old(ctx).req.method, old(ctx).req.path@) {
                Some(handler) => handler.leaves(*old(ctx), *final(ctx)),
                None => final(ctx).req == old(ctx).req && final(ctx).resp@ == not_found(),
            },
    {
        match bp.find_handler(ctx.req.method, ctx.req.path.as_str()) {
            Some(handler) => {
                handler.handle(ctx);
            },
            None => {
                ctx.resp = Response::text(
                    404,
                    String::from_str("Not Found"),
                    String::from_str("Not Found"),
                );
            },
        }
    }

    /// The answer to the request that `request` holds, written out.
    ///
    /// A text that holds no request is answered with `400 Bad Request`, a
    /// request for which `bp` holds no handler with `404 Not Found`. Any
    /// other request is answered by its handler: the handler is handed the
    /// request with the response that a context starts with, and the
    /// response that it leaves is written out.
    pub fn respond(bp: &Blueprint<H>, request: &str) -> (out: String) where H: Handler
        ensures
            match parse(request@) {
                Err(_) => out@ == rendered(bad_request()),
                Ok(req) => match looked_up(bp@, req.method, req.path) {
                    Some(handler) => exists|before: Context, after: Context|
                        {
                            &&& before.req@ == req
                            &&& before.resp@ == initial_response()
                            &&& #[trigger] handler.leaves(before, after)
                            &&& out@ == rendered(after.resp@)
                        },
                    None => out@ == rendered(not_found()),
                },
            },
    {
        match Request::from_string(request) {
            Ok(req) => {
                let mut ctx: Context = Context::new(req);
                Self::dispatch(bp, &mut ctx);
                ctx.resp.make_response()
            },
            Err(_) => {
                let resp: Response = Response::text(
                    400,
                    String::from_str("Bad Request"),
                    String::from_str("Bad Request"),
                );
                resp.make_response()
            },
        }
    }
}

} // verus!
