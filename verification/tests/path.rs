use tinyhttp::path::join;

#[test]
fn join_prefix_and_subpath() {
    assert_eq!(join("/user", "/add"), "/user/add");
}

#[test]
fn join_below_root() {
    assert_eq!(join("/", "/list"), "/list");
}

#[test]
fn join_prefix_with_trailing_slash() {
    assert_eq!(join("/a/", "/b"), "/a/b");
}

#[test]
fn join_puts_slash_before_subpath() {
    assert_eq!(join("/a", "b"), "/a/b");
    assert_eq!(join("/a/", "b"), "/a/b");
}

#[test]
fn join_collapses_long_runs() {
    assert_eq!(join("/a//", "//b///c"), "/a/b/c");
    assert_eq!(join("////", "////"), "/");
    assert_eq!(join("/a", "/b////"), "/a/b/");
}

#[test]
fn join_keeps_one_trailing_slash() {
    assert_eq!(join("/a", "/b/"), "/a/b/");
}

#[test]
fn join_with_empty_subpath() {
    assert_eq!(join("/", ""), "/");
    assert_eq!(join("/a", ""), "/a/");
}

#[test]
fn join_without_anchored_prefix() {
    assert_eq!(join("", "x"), "/x");
    assert_eq!(join("a", "b"), "a/b");
}

#[test]
fn join_keeps_other_characters() {
    assert_eq!(join("/caf\u{e9}", "/\u{4e2d}\u{6587}//x y"), "/caf\u{e9}/\u{4e2d}\u{6587}/x y");
}

#[test]
fn join_result_is_a_route_key() {
    let prefixes = ["/", "//", "/a", "/a/", "/a//b", "/a/b//"];
    let subs = ["", "/", "//", "x", "/x", "x/", "//x//y//", "x//y", "///"];
    for p in prefixes {
        for s in subs {
            let key = join(p, s);
            assert!(key.starts_with('/'), "{key}");
            assert!(!key.contains("//"), "{key}");
        }
    }
}

#[test]
fn join_is_stable_below_root() {
    let keys = ["/", "/a", "/a/b", "/a/b/"];
    for k in keys {
        assert_eq!(join("/", k), k);
    }
}
