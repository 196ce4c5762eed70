//! Blueprints: named groups of routes below a common prefix.
//!
//! A blueprint registers each route under the key that joins its prefix and
//! the route's path, and can take over the routes of another blueprint as
//! they are. Every key in a blueprint is a route key.
use vstd::prelude::*;
use vstd::string::StringExecFns;
use vstd::string::StrSliceExecFns;
use crate::context::Context;
use crate::path::{is_route_key, join, joined};
use crate::request::HttpMethod;
use crate::routes::{absorbed, looked_up, registered, RouteTable};
use crate::table::{with_key, with_keys};
use crate::text::{decimal, push_decimal};

verus! {

/// What answers a request: it is handed the context of the request and
/// leaves its answer in the context's response.
///
/// A handler says of itself, in `leaves`, how the context that it is handed
/// and the context that it leaves belong together. What is proved of the
/// handling of a request is proved from that: it holds of a handler as far
/// as the handler does what its `leaves` says. A handler that says nothing
/// of itself may leave any context.
pub trait Handler {
    /// `after` is a context that this handler may leave when it is handed
    /// `before`.
    open spec fn leaves(&self, before: Context, after: Context) -> bool {
        true
    }

    /// Answers the request in `ctx`.
    fn handle(&self, ctx: &mut Context)
        ensures
            self.leaves(*old(ctx), *final(ctx)),
    ;
}

/// `p` can be the prefix of a blueprint: it begins with `/`.
pub open spec fn is_prefix(p: Seq<char>) -> bool {
    p.len() > 0 && p[0] == '/'
}

/// What is said of a prefix that does not begin with `/`.
pub open spec fn invalid_prefix() -> Seq<char> {
    "prefix should start with '/'"@
}

/// The keys of a list, one after the other with `", "` between them.
pub open spec fn listed(keys: Seq<Seq<char>>) -> Seq<char>
    decreases keys.len(),
{
    if keys.len() == 0 {
        Seq::<char>::empty()
    } else if keys.len() == 1 {
        keys[0]
    } else {
        listed(keys.drop_last()) + ", "@ + keys.last()
    }
}

/// What a description says of one method: the method's name, the number of
/// its keys, and the keys.
pub open spec fn method_entry(method: HttpMethod, keys: Seq<Seq<char>>) -> Seq<char> {
    ", \""@ + method.name() + "\": \""@ + decimal(keys.len()) + " routes: "@ + listed(keys)
        + "\""@
}

/// A named group of routes below a prefix.
#[derive(Debug)]
pub struct Blueprint<H> {
    name: String,
    prefix: String,
    routes: RouteTable<H>,
}

impl<H> View for Blueprint<H> {
    type V = Map<(HttpMethod, Seq<char>), H>;

    closed spec fn view(&self) -> Map<(HttpMethod, Seq<char>), H> {
        self.routes@
    }
}

impl<H> Blueprint<H> {
    #[verifier::type_invariant]
    spec fn well_formed(self) -> bool {
        &&& is_prefix(self.prefix@)
        &&& forall|at: (HttpMethod, Seq<char>)| #[trigger]
            self.routes@.contains_key(at) ==> is_route_key(at.1)
    }

    /// The blueprint's name.
    pub closed spec fn name_view(&self) -> Seq<char> {
        self.name@
    }

    /// The blueprint's prefix.
    pub closed spec fn prefix_view(&self) -> Seq<char> {
        self.prefix@
    }

    /// The keys registered for `method`, in the order of their first registration.
    pub closed spec fn keys(&self, method: HttpMethod) -> Seq<Seq<char>> {
        self.routes.keys(method)
    }

    /// What a description says of the given methods, one after the other.
    pub open spec fn method_entries(&self, methods: Seq<HttpMethod>) -> Seq<char>
        decreases methods.len(),
    {
        if methods.len() == 0 {
            Seq::<char>::empty()
        } else {
            self.method_entries(methods.drop_last()) + method_entry(
                methods.last(),
                self.keys(methods.last()),
            )
        }
    }

    /// The description of the blueprint: its name, its prefix, and for
    /// every method the number of its keys and the keys themselves.
    pub open spec fn described(&self) -> Seq<char> {
        "{\"name\": \""@ + self.name_view() + "\", \"prefix\": \""@ + self.prefix_view() + "\""@
            + self.method_entries(HttpMethod::every()) + "}"@
    }

    /// `after` is `before` with `handler` registered for `method` under the
    /// key that joins the prefix and `path`. That key is a route key; if it
    /// is new for the method, it comes last among the method's keys.
    pub open spec fn added(
        before: Self,
        after: Self,
        method: HttpMethod,
        path: Seq<char>,
        handler: H,
    ) -> bool {
        let key = joined(before.prefix_view(), path);
        &&& is_route_key(key)
        &&& after@ == registered(before@, method, key, handler)
        &&& after.keys(method) == with_key(before.keys(method), key)
        &&& forall|m: HttpMethod| m != method ==> #[trigger] after.keys(m) == before.keys(m)
        &&& after.prefix_view() == before.prefix_view()
        &&& after.name_view() == before.name_view()
    }

    /// `after` is `before` with a copy of every route of `child`, each
    /// under the very key that it has in `child`; the keys that are new for
    /// a method come last among the method's keys, in the order that they
    /// have in `child`.
    pub open spec fn took_over(before: Self, child: Self, after: Self) -> bool where H: Clone {
        &&& absorbed(before@, child@, after@)
        &&& forall|m: HttpMethod| #[trigger]
            after.keys(m) == with_keys(before.keys(m), child.keys(m))
        &&& after.prefix_view() == before.prefix_view()
        &&& after.name_view() == before.name_view()
    }

    /// After a handler is registered for a path, it is the handler found
    /// for the method and the key that joins the prefix and the path,
    /// whatever was registered there before; for any other method or key,
    /// what is found is what was found before.
    pub proof fn lemma_added_is_found(
        before: Self,
        after: Self,
        method: HttpMethod,
        path: Seq<char>,
        handler: H,
    )
        requires
            Self::added(before, after, method, path, handler),
        ensures
            looked_up(after@, method, joined(before.prefix_view(), path)) == Some(handler),
            forall|m: HttpMethod, k: Seq<char>|
                m != method || k != joined(before.prefix_view(), path) ==> #[trigger] looked_up(
                    after@,
                    m,
                    k,
                ) == looked_up(before@, m, k),
    {
    }

    /// A blueprint that took over another holds a route under exactly the
    /// methods and keys under which it or the other held one before: no key
    /// is changed on the way, none is added and none is lost.
    pub proof fn lemma_took_over_keeps_keys(before: Self, child: Self, after: Self) where H: Clone
        requires
            Self::took_over(before, child, after),
        ensures
            after@.dom() == before@.dom().union(child@.dom()),
            before@.dom().is_empty() ==> after@.dom() == child@.dom(),
    {
        assert(after@.dom() =~= before@.dom().union(child@.dom()));
    }

    /// A blueprint without routes. The prefix has to begin with `/`; any
    /// other prefix is turned down.
    pub fn new(name: &str, prefix: &str) -> (r: Result<Self, String>)
        ensures
            match r {
                Ok(bp) => {
                    &&& is_prefix(prefix@)
                    &&& bp.name_view() == name@
                    &&& bp.prefix_view() == prefix@
                    &&& bp@ == Map::<(HttpMethod, Seq<char>), H>::empty()
                    &&& forall|m: HttpMethod| #[trigger] bp.keys(m) == Seq::<Seq<char>>::empty()
                },
                Err(msg) => !is_prefix(prefix@) && msg@ == invalid_prefix(),
            },
    {
        if prefix.unicode_len() > 0 && prefix.get_char(0) == '/' {
            Ok(
                Blueprint {
                    name: String::from_str(name),
                    prefix: String::from_str(prefix),
                    routes: RouteTable::new(),
                },
            )
        } else {
            Err(String::from_str("prefix should start with '/'"))
        }
    }

    /// The blueprint's name.
    pub fn name(&self) -> (s: &str)
        ensures
            s@ == self.name_view(),
    {
        self.name.as_str()
    }

    /// The blueprint's prefix.
    pub fn prefix(&self) -> (s: &str)
        ensures
            s@ == self.prefix_view(),
            is_prefix(s@),
    {
        proof {
            use_type_invariant(self);
        }
        self.prefix.as_str()
    }

    /// The keys registered for `method`, in the order of their first
    /// registration: every key under which the blueprint holds a handler
    /// for the method, each once, and each a route key.
    pub fn paths(&self, method: HttpMethod) -> (paths: Vec<String>)
        ensures
            paths@.len() == self.keys(method).len(),
            forall|i: int|
                0 <= i < paths@.len() ==> (#[trigger] paths@[i])@ == self.keys(method)[i],
            self.keys(method).no_duplicates(),
            forall|k: Seq<char>| self@.contains_key((method, k)) <==> self.keys(method).contains(k),
            forall|k: Seq<char>| self.keys(method).contains(k) ==> is_route_key(k),
    {
        proof {
            use_type_invariant(self);
        }
        self.routes.paths(method)
    }

    /// Appends to `out` what a description says of one method.
    fn describe_method(&self, method: HttpMethod, out: &mut String)
        ensures
            final(out)@ == old(out)@ + method_entry(method, self.keys(method)),
    {
        let paths: Vec<String> = self.paths(method);
        let ghost keys = self.keys(method);
        let ghost base = out@ + ", \""@ + method.name() + "\": \""@ + decimal(keys.len())
            + " routes: "@;
        out.append(", \"");
        out.append(method.as_str());
        out.append("\": \"");
        push_decimal(out, paths.len());
        out.append(" routes: ");
        let mut i: usize = 0;
        while i < paths.len()
            invariant
                i <= paths@.len(),
                paths@.len() == keys.len(),
                forall|j: int| 0 <= j < paths@.len() ==> (#[trigger] paths@[j])@ == keys[j],
                out@ == base + listed(keys.take(i as int)),
            decreases paths@.len() - i,
        {
            proof {
                assert(keys.take(i + 1).drop_last() =~= keys.take(i as int));
            }
            if i > 0 {
                out.append(", ");
            }
            out.append(paths[i].as_str());
            i = i + 1;
        }
        out.append("\"");
        proof {
            assert(keys.take(paths@.len() as int) =~= keys);
        }
    }

    /// The description of the blueprint: its name, its prefix, and for
    /// every method the number of its keys and the keys themselves.
    pub fn describe(&self) -> (out: String)
        ensures
            out@ == self.described(),
    {
        let mut out: String = String::from_str("{\"name\": \"");
        out.append(self.name.as_str());
        out.append("\", \"prefix\": \"");
        out.append(self.prefix.as_str());
        out.append("\"");
        let ghost head = out@;
        let methods: Vec<HttpMethod> = HttpMethod::all();
        let mut i: usize = 0;
        while i < methods.len()
            invariant
                i <= methods@.len(),
                out@ == head + self.method_entries(methods@.take(i as int)),
            decreases methods@.len() - i,
        {
            proof {
                assert(methods@.take(i + 1).drop_last() =~= methods@.take(i as int));
            }
            self.describe_method(methods[i], &mut out);
            i = i + 1;
        }
        out.append("}");
        proof {
            assert(methods@.take(methods@.len() as int) =~= methods@);
        }
        out
    }

    /// Registers `handler` for `method` under the key that joins the
    /// blueprint's prefix and `path`; a handler that was registered under
    /// that key before is replaced.
    pub fn add_handler(&mut self, method: HttpMethod, path: &str, handler: H)
        ensures
            Self::added(*old(self), *final(self), method, path@, handler),
    {
        proof {
            use_type_invariant(&*self);
        }
        let key: String = join(self.prefix.as_str(), path);
        let mut routes: RouteTable<H> = RouteTable::new();
        std::mem::swap(&mut routes, &mut self.routes);
        routes.register(method, key, handler);
        self.routes = routes;
    }

    /// Registers `handler` for `GET` requests to `path` below the prefix.
    pub fn get(&mut self, path: &str, handler: H)
        ensures
            Self::added(*old(self), *final(self), HttpMethod::GET, path@, handler),
    {
        self.add_handler(HttpMethod::GET, path, handler);
    }

    /// Registers `handler` for `POST` requests to `path` below the prefix.
    pub fn post(&mut self, path: &str, handler: H)
        ensures
            Self::added(*old(self), *final(self), HttpMethod::POST, path@, handler),
    {
        self.add_handler(HttpMethod::POST, path, handler);
    }

    /// Takes over the routes of `blueprint`: each of its handlers is
    /// copied and registered under the very key that it has there. The keys
    /// are not joined to this blueprint's prefix. Where both blueprints have
    /// a route, the handler from `blueprint` replaces the one that was there.
    pub fn register_blueprint(&mut self, blueprint: &Self) where H: Clone
        ensures
            Self::took_over(*old(self), *blueprint, *final(self)),
    {
        proof {
            use_type_invariant(&*self);
            use_type_invariant(blueprint);
        }
        let mut routes: RouteTable<H> = RouteTable::new();
        std::mem::swap(&mut routes, &mut self.routes);
        routes.absorb(&blueprint.routes);
        self.routes = routes;
    }

    /// The handler registered for exactly this method and path, if any. The
    /// path is taken as it is: nothing is joined to it. A path for which a
    /// handler is found is a route key.
    pub fn find_handler(&self, method: HttpMethod, path: &str) -> (r: Option<&H>)
        ensures
            match r {
                Some(h) => looked_up(self@, method, path@) == Some(*h) && is_route_key(path@),
                None => looked_up(self@, method, path@) is None,
            },
    {
        proof {
            use_type_invariant(self);
        }
        self.routes.lookup(method, path)
    }
}

} // verus!
