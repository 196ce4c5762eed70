//! The route table: for each request method, a map from route keys to
//! handlers.
//!
//! Every method has a map of its own, which may be empty, so a lookup can
//! only miss because of the key.
use vstd::prelude::*;
use crate::request::HttpMethod;
use crate::table::{with_key, with_keys, StrMap};

verus! {

/// What a table holds: handlers by method and key.
pub type Routes<H> = Map<(HttpMethod, Seq<char>), H>;

/// The handler that `routes` holds for `method` and `key`, if any.
pub open spec fn looked_up<H>(routes: Routes<H>, method: HttpMethod, key: Seq<char>) -> Option<H> {
    if routes.contains_key((method, key)) {
        Some(routes[(method, key)])
    } else {
        None
    }
}

/// `routes` after `handler` is registered for `method` and `key`.
pub open spec fn registered<H>(
    routes: Routes<H>,
    method: HttpMethod,
    key: Seq<char>,
    handler: H,
) -> Routes<H> {
    routes.insert((method, key), handler)
}

/// A handler that was registered is the one that is found, whatever was
/// registered there before.
pub proof fn lemma_registered_is_found<H>(
    routes: Routes<H>,
    method: HttpMethod,
    key: Seq<char>,
    handler: H,
)
    ensures
        looked_up(registered(routes, method, key, handler), method, key) == Some(handler),
{
}

/// Registering a handler changes nothing for any other method or key.
pub proof fn lemma_registered_elsewhere<H>(
    routes: Routes<H>,
    method: HttpMethod,
    key: Seq<char>,
    handler: H,
    other_method: HttpMethod,
    other_key: Seq<char>,
)
    requires
        other_method != method || other_key != key,
    ensures
        looked_up(registered(routes, method, key, handler), other_method, other_key) == looked_up(
            routes,
            other_method,
            other_key,
        ),
{
}

/// Of two handlers registered one after the other for the same method and
/// key, only the second is left: the table is what it would be had the
/// first never been registered.
pub proof fn lemma_registered_again<H>(
    routes: Routes<H>,
    method: HttpMethod,
    key: Seq<char>,
    first: H,
    second: H,
)
    ensures
        registered(registered(routes, method, key, first), method, key, second) == registered(
            routes,
            method,
            key,
            second,
        ),
{
}

/// `after` holds the routes of `before` and a copy of every route of
/// `other`; where both have a route, the copy from `other` is the one that
/// `after` holds.
pub open spec fn absorbed<H: Clone>(before: Routes<H>, other: Routes<H>, after: Routes<H>) -> bool {
    &&& forall|at: (HttpMethod, Seq<char>)|
        #![trigger after.contains_key(at)]
        after.contains_key(at) <==> before.contains_key(at) || other.contains_key(at)
    &&& forall|at: (HttpMethod, Seq<char>)|
        other.contains_key(at) ==> cloned::<H>(other[at], #[trigger] after[at])
    &&& forall|at: (HttpMethod, Seq<char>)|
        before.contains_key(at) && !other.contains_key(at) ==> #[trigger] after[at] == before[at]
}

/// A route table.
#[derive(Debug)]
pub struct RouteTable<H> {
    get: StrMap<H>,
    post: StrMap<H>,
    put: StrMap<H>,
    delete: StrMap<H>,
    patch: StrMap<H>,
    head: StrMap<H>,
    options: StrMap<H>,
}

impl<H> View for RouteTable<H> {
    type V = Map<(HttpMethod, Seq<char>), H>;

    closed spec fn view(&self) -> Map<(HttpMethod, Seq<char>), H> {
        Map::new(
            |at: (HttpMethod, Seq<char>)| self.bucket(at.0)@.contains_key(at.1),
            |at: (HttpMethod, Seq<char>)| self.bucket(at.0)@[at.1],
        )
    }
}

impl<H> RouteTable<H> {
    /// The map of one method.
    pub closed spec fn bucket(&self, method: HttpMethod) -> StrMap<H> {
        match method {
            HttpMethod::GET => self.get,
            HttpMethod::POST => self.post,
            HttpMethod::PUT => self.put,
            HttpMethod::DELETE => self.delete,
            HttpMethod::PATCH => self.patch,
            HttpMethod::HEAD => self.head,
            HttpMethod::OPTIONS => self.options,
        }
    }

    /// The keys registered for `method`, in the order of their first registration.
    pub closed spec fn keys(&self, method: HttpMethod) -> Seq<Seq<char>> {
        self.bucket(method).keys()
    }

    /// The map of one method.
    fn bucket_of(&self, method: HttpMethod) -> (b: &StrMap<H>)
        ensures
            *b == self.bucket(method),
    {
        match method {
            HttpMethod::GET => &self.get,
            HttpMethod::POST => &self.post,
            HttpMethod::PUT => &self.put,
            HttpMethod::DELETE => &self.delete,
            HttpMethod::PATCH => &self.patch,
            HttpMethod::HEAD => &self.head,
            HttpMethod::OPTIONS => &self.options,
        }
    }

    /// The table without any route.
    pub fn new() -> (t: Self)
        ensures
            t@ == Map::<(HttpMethod, Seq<char>), H>::empty(),
            forall|m: HttpMethod| #[trigger] t.keys(m) == Seq::<Seq<char>>::empty(),
    {
        let t = RouteTable {
            get: StrMap::new(),
            post: StrMap::new(),
            put: StrMap::new(),
            delete: StrMap::new(),
            patch: StrMap::new(),
            head: StrMap::new(),
            options: StrMap::new(),
        };
        t
    }

    /// Registers `handler` for `method` and `key`; a handler that was
    /// registered there before is replaced. A key that is new for the
    /// method comes last among the method's keys.
    pub fn register(&mut self, method: HttpMethod, key: String, handler: H)
        ensures
            final(self)@ == registered(old(self)@, method, key@, handler),
            final(self).keys(method) == with_key(old(self).keys(method), key@),
            forall|m: HttpMethod|
                m != method ==> #[trigger] final(self).keys(m) == old(self).keys(m),
    {
        match method {
            HttpMethod::GET => self.get.insert(key, handler),
            HttpMethod::POST => self.post.insert(key, handler),
            HttpMethod::PUT => self.put.insert(key, handler),
            HttpMethod::DELETE => self.delete.insert(key, handler),
            HttpMethod::PATCH => self.patch.insert(key, handler),
            HttpMethod::HEAD => self.head.insert(key, handler),
            HttpMethod::OPTIONS => self.options.insert(key, handler),
        }
    }

    /// The handler registered for exactly this method and key, if any.
    pub fn lookup(&self, method: HttpMethod, key: &str) -> (r: Option<&H>)
        ensures
            match r {
                Some(h) => looked_up(self@, method, key@) == Some(*h),
                None => looked_up(self@, method, key@) is None,
            },
    {
        self.bucket_of(method).get(key)
    }

    /// The keys registered for `method`, in the order of their first
    /// registration: every key under which the table holds a handler for
    /// the method, each once.
    pub fn paths(&self, method: HttpMethod) -> (paths: Vec<String>)
        ensures
            paths@.len() == self.keys(method).len(),
            forall|i: int|
                0 <= i < paths@.len() ==> (#[trigger] paths@[i])@ == self.keys(method)[i],
            self.keys(method).no_duplicates(),
            forall|k: Seq<char>| self@.contains_key((method, k)) <==> self.keys(method).contains(k),
    {
        let bucket: &StrMap<H> = self.bucket_of(method);
        let n: usize = bucket.len();
        let mut paths: Vec<String> = Vec::new();
        let mut i: usize = 0;
        while i < n
            invariant
                i <= n,
                n == bucket.keys().len(),
                paths@.len() == i,
                forall|j: int| 0 <= j < i ==> (#[trigger] paths@[j])@ == bucket.keys()[j],
            decreases n - i,
        {
            paths.push(bucket.key_at(i).clone());
            i = i + 1;
        }
        paths
    }

    /// Registers a copy of every route of `other`, method by method in the
    /// order of its keys; where both tables have a route, the handler from
    /// `other` replaces the one that was there.
    pub fn absorb(&mut self, other: &RouteTable<H>) where H: Clone
        ensures
            absorbed(old(self)@, other@, final(self)@),
            forall|m: HttpMethod| #[trigger]
                final(self).keys(m) == with_keys(old(self).keys(m), other.keys(m)),
    {
        self.get.absorb(&other.get);
        self.post.absorb(&other.post);
        self.put.absorb(&other.put);
        self.delete.absorb(&other.delete);
        self.patch.absorb(&other.patch);
        self.head.absorb(&other.head);
        self.options.absorb(&other.options);
    }
}

} // verus!
