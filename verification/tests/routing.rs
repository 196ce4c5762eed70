use std::sync::Arc;
use tinyhttp::blueprint::{Blueprint, Handler};
use tinyhttp::context::Context;
use tinyhttp::request::HttpMethod;
use tinyhttp::response::Response;
use tinyhttp::routes::RouteTable;
use tinyhttp::table::StrMap;

struct Reply {
    text: &'static str,
}

#[derive(Clone)]
struct Shared(Arc<Reply>);

impl Handler for Shared {
    fn handle(&self, ctx: &mut Context) {
        ctx.resp = Response::text(200, "OK".to_string(), self.0.text.to_string());
    }
}

fn shared(text: &'static str) -> Shared {
    Shared(Arc::new(Reply { text }))
}

fn keys(bp: &Blueprint<Shared>) -> Vec<(HttpMethod, String)> {
    let mut all = Vec::new();
    for m in HttpMethod::all() {
        for p in bp.paths(m) {
            all.push((m, p));
        }
    }
    all
}

#[test]
fn registered_handler_is_found() {
    let mut bp: Blueprint<Shared> = Blueprint::new("root", "/").unwrap();
    let h = shared("x");
    bp.get("/x", h.clone());
    let found = bp.find_handler(HttpMethod::GET, "/x").unwrap();
    assert!(Arc::ptr_eq(&found.0, &h.0));
}

#[test]
fn other_method_is_not_found() {
    let mut bp: Blueprint<Shared> = Blueprint::new("root", "/").unwrap();
    bp.get("/x", shared("x"));
    assert!(bp.find_handler(HttpMethod::POST, "/x").is_none());
    for m in HttpMethod::all() {
        assert_eq!(bp.find_handler(m, "/x").is_some(), m == HttpMethod::GET);
    }
}

#[test]
fn other_path_is_not_found() {
    let mut bp: Blueprint<Shared> = Blueprint::new("root", "/").unwrap();
    bp.get("/x", shared("x"));
    assert!(bp.find_handler(HttpMethod::GET, "/").is_none());
    assert!(bp.find_handler(HttpMethod::GET, "/x/").is_none());
    assert!(bp.find_handler(HttpMethod::GET, "/X").is_none());
    assert!(bp.find_handler(HttpMethod::GET, "x").is_none());
    assert!(bp.find_handler(HttpMethod::GET, "//x").is_none());
    assert!(bp.find_handler(HttpMethod::GET, "").is_none());
}

#[test]
fn registering_again_replaces() {
    let mut bp: Blueprint<Shared> = Blueprint::new("root", "/").unwrap();
    let first = shared("first");
    let second = shared("second");
    bp.get("/x", first.clone());
    bp.get("/x", second.clone());
    let found = bp.find_handler(HttpMethod::GET, "/x").unwrap();
    assert!(Arc::ptr_eq(&found.0, &second.0));
    assert!(!Arc::ptr_eq(&found.0, &first.0));
    assert_eq!(bp.paths(HttpMethod::GET), vec!["/x".to_string()]);
}

#[test]
fn paths_that_join_to_one_key_are_one_route() {
    let mut bp: Blueprint<Shared> = Blueprint::new("api", "/api/").unwrap();
    let first = shared("first");
    let second = shared("second");
    bp.post("users", first);
    bp.post("//users", second.clone());
    assert_eq!(bp.paths(HttpMethod::POST), vec!["/api/users".to_string()]);
    let found = bp.find_handler(HttpMethod::POST, "/api/users").unwrap();
    assert!(Arc::ptr_eq(&found.0, &second.0));
}

#[test]
fn one_handler_under_several_keys() {
    let mut bp: Blueprint<Shared> = Blueprint::new("root", "/").unwrap();
    let h = shared("both");
    bp.get("/a", h.clone());
    bp.post("/b", h.clone());
    assert!(Arc::ptr_eq(&bp.find_handler(HttpMethod::GET, "/a").unwrap().0, &h.0));
    assert!(Arc::ptr_eq(&bp.find_handler(HttpMethod::POST, "/b").unwrap().0, &h.0));
}

#[test]
fn routes_are_registered_below_the_prefix() {
    let mut bp: Blueprint<Shared> = Blueprint::new("user_bp", "/user").unwrap();
    bp.post("/add", shared("add"));
    bp.get("list", shared("list"));
    assert!(bp.find_handler(HttpMethod::POST, "/user/add").is_some());
    assert!(bp.find_handler(HttpMethod::GET, "/user/list").is_some());
    assert!(bp.find_handler(HttpMethod::POST, "/add").is_none());
    assert_eq!(bp.name(), "user_bp");
    assert_eq!(bp.prefix(), "/user");
}

#[test]
fn add_handler_for_every_method() {
    let mut bp: Blueprint<Shared> = Blueprint::new("root", "/v1").unwrap();
    for m in HttpMethod::all() {
        bp.add_handler(m, "/thing", shared(m.as_str()));
    }
    for m in HttpMethod::all() {
        let found = bp.find_handler(m, "/v1/thing").unwrap();
        assert_eq!(found.0.text, m.as_str());
        assert_eq!(bp.paths(m), vec!["/v1/thing".to_string()]);
    }
}

#[test]
fn prefix_must_begin_with_slash() {
    let r: Result<Blueprint<Shared>, String> = Blueprint::new("bad", "user");
    assert_eq!(r.err(), Some("prefix should start with '/'".to_string()));
    let r: Result<Blueprint<Shared>, String> = Blueprint::new("bad", "");
    assert_eq!(r.err(), Some("prefix should start with '/'".to_string()));
    let r: Result<Blueprint<Shared>, String> = Blueprint::new("bad", " /");
    assert!(r.is_err());
    let r: Result<Blueprint<Shared>, String> = Blueprint::new("good", "/");
    assert!(r.is_ok());
}

#[test]
fn absorbed_routes_keep_their_keys() {
    let mut child: Blueprint<Shared> = Blueprint::new("child", "/").unwrap();
    let list = shared("list");
    let new = shared("new");
    child.get("/list", list.clone());
    child.post("/new", new.clone());
    let mut parent: Blueprint<Shared> = Blueprint::new("parent", "/user").unwrap();
    parent.register_blueprint(&child);
    assert_eq!(
        keys(&parent),
        vec![(HttpMethod::GET, "/list".to_string()), (HttpMethod::POST, "/new".to_string())]
    );
    assert!(Arc::ptr_eq(&parent.find_handler(HttpMethod::GET, "/list").unwrap().0, &list.0));
    assert!(Arc::ptr_eq(&parent.find_handler(HttpMethod::POST, "/new").unwrap().0, &new.0));
    assert!(parent.find_handler(HttpMethod::GET, "/user/list").is_none());
    assert_eq!(
        keys(&child),
        vec![(HttpMethod::GET, "/list".to_string()), (HttpMethod::POST, "/new".to_string())]
    );
}

#[test]
fn absorbed_routes_carry_the_prefix_of_the_child() {
    let mut posts: Blueprint<Shared> = Blueprint::new("user_post_bp", "/post").unwrap();
    posts.get("/list", shared("list"));
    posts.post("/new", shared("new"));
    let mut users: Blueprint<Shared> = Blueprint::new("user_bp", "/user").unwrap();
    users.post("/add", shared("add"));
    users.register_blueprint(&posts);
    assert_eq!(
        keys(&users),
        vec![
            (HttpMethod::GET, "/post/list".to_string()),
            (HttpMethod::POST, "/user/add".to_string()),
            (HttpMethod::POST, "/post/new".to_string()),
        ]
    );
}

#[test]
fn absorbed_route_replaces_one_with_the_same_key() {
    let mut child: Blueprint<Shared> = Blueprint::new("child", "/a").unwrap();
    let theirs = shared("theirs");
    child.get("/x", theirs.clone());
    let mut parent: Blueprint<Shared> = Blueprint::new("parent", "/").unwrap();
    let ours = shared("ours");
    let kept = shared("kept");
    parent.get("/a/x", ours);
    parent.get("/y", kept.clone());
    parent.register_blueprint(&child);
    assert!(Arc::ptr_eq(&parent.find_handler(HttpMethod::GET, "/a/x").unwrap().0, &theirs.0));
    assert!(Arc::ptr_eq(&parent.find_handler(HttpMethod::GET, "/y").unwrap().0, &kept.0));
    assert_eq!(parent.paths(HttpMethod::GET), vec!["/a/x".to_string(), "/y".to_string()]);
}

#[test]
fn absorbing_an_empty_blueprint_changes_nothing() {
    let child: Blueprint<Shared> = Blueprint::new("child", "/c").unwrap();
    let mut parent: Blueprint<Shared> = Blueprint::new("parent", "/").unwrap();
    parent.get("/x", shared("x"));
    parent.register_blueprint(&child);
    assert_eq!(keys(&parent), vec![(HttpMethod::GET, "/x".to_string())]);
}

#[test]
fn every_key_is_a_route_key() {
    let mut bp: Blueprint<Shared> = Blueprint::new("b", "//a//").unwrap();
    bp.get("", shared("1"));
    bp.get("//x//y", shared("2"));
    bp.post("z/", shared("3"));
    for (_, key) in keys(&bp) {
        assert!(key.starts_with('/'));
        assert!(!key.contains("//"));
    }
    assert_eq!(bp.paths(HttpMethod::GET), vec!["/a/".to_string(), "/a/x/y".to_string()]);
    assert_eq!(bp.paths(HttpMethod::POST), vec!["/a/z/".to_string()]);
}

#[test]
fn lookups_see_all_registrations() {
    let mut bp: Blueprint<Shared> = Blueprint::new("root", "/").unwrap();
    let names = ["a", "b", "c", "d", "e", "f", "g", "h"];
    let mut handlers = Vec::new();
    for n in names {
        let h = shared(n);
        bp.get(n, h.clone());
        handlers.push(h);
    }
    for _ in 0..3 {
        for (i, n) in names.iter().enumerate() {
            let path = format!("/{n}");
            let found = bp.find_handler(HttpMethod::GET, &path).unwrap();
            assert!(Arc::ptr_eq(&found.0, &handlers[i].0));
        }
        assert!(bp.find_handler(HttpMethod::GET, "/i").is_none());
    }
}

#[test]
fn route_table_register_and_lookup() {
    let mut table: RouteTable<u32> = RouteTable::new();
    assert_eq!(table.lookup(HttpMethod::GET, "/x"), None);
    table.register(HttpMethod::GET, "/x".to_string(), 1);
    table.register(HttpMethod::PUT, "/x".to_string(), 2);
    table.register(HttpMethod::GET, "/y".to_string(), 3);
    table.register(HttpMethod::GET, "/x".to_string(), 4);
    assert_eq!(table.lookup(HttpMethod::GET, "/x"), Some(&4));
    assert_eq!(table.lookup(HttpMethod::PUT, "/x"), Some(&2));
    assert_eq!(table.lookup(HttpMethod::GET, "/y"), Some(&3));
    assert_eq!(table.lookup(HttpMethod::HEAD, "/x"), None);
    assert_eq!(table.paths(HttpMethod::GET), vec!["/x".to_string(), "/y".to_string()]);
    assert_eq!(table.paths(HttpMethod::OPTIONS), Vec::<String>::new());
}

#[test]
fn route_table_absorb() {
    let mut a: RouteTable<u32> = RouteTable::new();
    a.register(HttpMethod::GET, "/x".to_string(), 1);
    a.register(HttpMethod::GET, "/y".to_string(), 2);
    let mut b: RouteTable<u32> = RouteTable::new();
    b.register(HttpMethod::GET, "/y".to_string(), 20);
    b.register(HttpMethod::PATCH, "/z".to_string(), 30);
    a.absorb(&b);
    assert_eq!(a.lookup(HttpMethod::GET, "/x"), Some(&1));
    assert_eq!(a.lookup(HttpMethod::GET, "/y"), Some(&20));
    assert_eq!(a.lookup(HttpMethod::PATCH, "/z"), Some(&30));
    assert_eq!(a.lookup(HttpMethod::GET, "/z"), None);
}

#[test]
fn str_map_insert_get_and_order() {
    let mut m: StrMap<u8> = StrMap::new();
    assert_eq!(m.len(), 0);
    assert!(!m.contains_key("a"));
    m.insert("a".to_string(), 1);
    m.insert("b".to_string(), 2);
    m.insert("a".to_string(), 3);
    assert_eq!(m.len(), 2);
    assert_eq!(m.get("a"), Some(&3));
    assert_eq!(m.get("b"), Some(&2));
    assert_eq!(m.get("c"), None);
    assert!(m.contains_key("b"));
    assert_eq!(m.key_at(0), "a");
    assert_eq!(m.key_at(1), "b");
    assert_eq!(m.value_at(0), &3);
    assert_eq!(m.value_at(1), &2);
}

fn shareable<T: Send + Sync>() -> bool {
    true
}

#[test]
fn blueprint_can_be_read_from_many_threads() {
    assert!(shareable::<Blueprint<Shared>>());
    assert!(shareable::<RouteTable<Shared>>());
    assert!(shareable::<tinyhttp::engine::Engine<Shared>>());
}

#[test]
fn absorbed_keys_come_after_own_keys() {
    let mut child: Blueprint<Shared> = Blueprint::new("child", "/c").unwrap();
    child.get("/1", shared("c1"));
    child.get("/2", shared("c2"));
    child.get("/3", shared("c3"));
    let mut parent: Blueprint<Shared> = Blueprint::new("parent", "/").unwrap();
    parent.get("/c/2", shared("p2"));
    parent.get("/own", shared("own"));
    parent.register_blueprint(&child);
    assert_eq!(
        parent.paths(HttpMethod::GET),
        vec!["/c/2".to_string(), "/own".to_string(), "/c/1".to_string(), "/c/3".to_string()]
    );
    assert_eq!(parent.find_handler(HttpMethod::GET, "/c/2").unwrap().0.text, "c2");
}

#[test]
fn blueprint_description() {
    let mut bp: Blueprint<Shared> = Blueprint::new("user_bp", "/user").unwrap();
    assert_eq!(
        bp.describe(),
        "{\"name\": \"user_bp\", \"prefix\": \"/user\", \"GET\": \"0 routes: \", \"POST\": \"0 routes: \", \"PUT\": \"0 routes: \", \"DELETE\": \"0 routes: \", \"PATCH\": \"0 routes: \", \"HEAD\": \"0 routes: \", \"OPTIONS\": \"0 routes: \"}"
    );
    bp.get("/list", shared("list"));
    bp.get("/show", shared("show"));
    bp.get("/edit", shared("edit"));
    bp.post("/add", shared("add"));
    assert_eq!(
        bp.describe(),
        "{\"name\": \"user_bp\", \"prefix\": \"/user\", \"GET\": \"3 routes: /user/list, /user/show, /user/edit\", \"POST\": \"1 routes: /user/add\", \"PUT\": \"0 routes: \", \"DELETE\": \"0 routes: \", \"PATCH\": \"0 routes: \", \"HEAD\": \"0 routes: \", \"OPTIONS\": \"0 routes: \"}"
    );
}
