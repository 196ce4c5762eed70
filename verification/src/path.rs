//! Route keys: joining a prefix and a sub-path into one canonical path.
//!
//! A route key begins with `/` and never holds two `/` in a row. `join` makes
//! one out of any prefix that begins with `/` and any sub-path.
use vstd::prelude::*;
use crate::text::{push_char, to_chars};

verus! {

/// `s` holds two `/` in a row somewhere.
pub open spec fn has_double_slash(s: Seq<char>) -> bool {
    exists|i: int| 0 <= i && i + 1 < s.len() && #[trigger] s[i] == '/' && s[i + 1] == '/'
}

/// `s` is a route key: it begins with `/` and holds no two `/` in a row.
pub open spec fn is_route_key(s: Seq<char>) -> bool {
    s.len() > 0 && s[0] == '/' && !has_double_slash(s)
}

/// `s` with every run of `/` shortened to a single `/`: each `/` that
/// directly follows another one is left out.
pub open spec fn collapse(s: Seq<char>) -> Seq<char>
    decreases s.len(),
{
    if s.len() == 0 {
        s
    } else if s.len() >= 2 && s[s.len() - 1] == '/' && s[s.len() - 2] == '/' {
        collapse(s.drop_last())
    } else {
        collapse(s.drop_last()).push(s.last())
    }
}

/// The sub-path with a `/` put in front unless it has one already.
pub open spec fn anchored(sub: Seq<char>) -> Seq<char> {
    if sub.len() > 0 && sub[0] == '/' {
        sub
    } else {
        seq!['/'] + sub
    }
}

/// The key under which `sub` is registered below `prefix`.
pub open spec fn joined(prefix: Seq<char>, sub: Seq<char>) -> Seq<char> {
    collapse(prefix + anchored(sub))
}

/// Collapsing keeps the first and the last character, and leaves something
/// whenever there was something.
pub proof fn lemma_collapse_ends(s: Seq<char>)
    requires
        s.len() > 0,
    ensures
        collapse(s).len() > 0,
        collapse(s).len() <= s.len(),
        collapse(s)[0] == s[0],
        collapse(s).last() == s.last(),
    decreases s.len(),
{
    if s.len() >= 2 {
        lemma_collapse_ends(s.drop_last());
    } else {
        assert(collapse(s.drop_last()).len() == 0);
    }
}

/// What `collapse` returns never holds two `/` in a row.
pub proof fn lemma_collapse_no_double_slash(s: Seq<char>)
    ensures
        !has_double_slash(collapse(s)),
    decreases s.len(),
{
    if s.len() > 0 {
        let init = s.drop_last();
        lemma_collapse_no_double_slash(init);
        if init.len() > 0 {
            lemma_collapse_ends(init);
        }
        let c = collapse(init);
        if !(s.len() >= 2 && s[s.len() - 1] == '/' && s[s.len() - 2] == '/') {
            let r = c.push(s.last());
            assert forall|i: int| 0 <= i && i + 1 < r.len() implies !(#[trigger] r[i] == '/' && r[i
                + 1] == '/') by {
                if i + 1 < c.len() {
                    assert(r[i] == c[i] && r[i + 1] == c[i + 1]);
                }
            }
        }
    }
}

/// A sequence that holds no two `/` in a row is left as it is.
pub proof fn lemma_collapse_fixed(s: Seq<char>)
    requires
        !has_double_slash(s),
    ensures
        collapse(s) == s,
    decreases s.len(),
{
    if s.len() > 0 {
        let init = s.drop_last();
        assert forall|i: int| 0 <= i && i + 1 < init.len() implies !(#[trigger] init[i] == '/'
            && init[i + 1] == '/') by {
            assert(s[i] == init[i] && s[i + 1] == init[i + 1]);
        }
        lemma_collapse_fixed(init);
        assert(init.push(s.last()) == s);
    }
}

/// Collapsing twice is collapsing once.
pub proof fn lemma_collapse_idempotent(s: Seq<char>)
    ensures
        collapse(collapse(s)) == collapse(s),
{
    lemma_collapse_no_double_slash(s);
    lemma_collapse_fixed(collapse(s));
}

/// Collapsing what follows a first part depends on that part only through
/// its collapsed form.
pub proof fn lemma_collapse_append(a: Seq<char>, b: Seq<char>)
    requires
        a.len() > 0,
    ensures
        collapse(a + b) == collapse(collapse(a) + b),
    decreases b.len(),
{
    lemma_collapse_ends(a);
    let ca = collapse(a);
    if b.len() == 0 {
        lemma_collapse_idempotent(a);
    } else {
        let bi = b.drop_last();
        lemma_collapse_append(a, bi);
        assert((a + b).drop_last() == a + bi);
        assert((ca + b).drop_last() == ca + bi);
    }
}

/// Taking one `/` out of a pair of them changes nothing once collapsed: so
/// `collapse` is where replacing `//` by `/` over and over comes to rest.
pub proof fn lemma_collapse_step(a: Seq<char>, b: Seq<char>)
    ensures
        collapse(a + seq!['/', '/'] + b) == collapse(a + seq!['/'] + b),
{
    let one = a + seq!['/'];
    let two = a + seq!['/', '/'];
    assert(two.drop_last() == one);
    lemma_collapse_append(two, b);
    lemma_collapse_append(one, b);
}

/// Joining below a prefix that begins with `/` gives a route key, whatever
/// the sub-path is.
pub proof fn lemma_join_is_route_key(prefix: Seq<char>, sub: Seq<char>)
    requires
        prefix.len() > 0,
        prefix[0] == '/',
    ensures
        is_route_key(joined(prefix, sub)),
{
    let all = prefix + anchored(sub);
    lemma_collapse_ends(all);
    lemma_collapse_no_double_slash(all);
}

/// A route key joined on below the root prefix `/` is that key again.
pub proof fn lemma_join_root(key: Seq<char>)
    requires
        is_route_key(key),
    ensures
        joined(seq!['/'], key) == key,
{
    let all = seq!['/'] + key;
    let two = seq!['/', '/'];
    let rest = key.skip(1);
    assert(all == Seq::<char>::empty() + two + rest);
    assert(key == Seq::<char>::empty() + seq!['/'] + rest);
    lemma_collapse_step(Seq::<char>::empty(), rest);
    lemma_collapse_fixed(key);
}

/// Joins `prefix` and `subpath` into one key: the sub-path gets a `/` in
/// front unless it has one, the two are put together, and every run of `/`
/// is shortened to one.
pub fn join(prefix: &str, subpath: &str) -> (key: String)
    ensures
        key@ == joined(prefix@, subpath@),
        !has_double_slash(key@),
        prefix@.len() > 0 && prefix@[0] == '/' ==> is_route_key(key@),
{
    let mut all: Vec<char> = to_chars(prefix);
    let sub: Vec<char> = to_chars(subpath);
    if !(sub.len() > 0 && sub[0] == '/') {
        all.push('/');
    }
    let mut j: usize = 0;
    while j < sub.len()
        invariant
            j <= sub@.len(),
            sub@ == subpath@,
            all@ == prefix@ + anchored(sub@).take(anchored(sub@).len() - sub@.len() + j),
        decreases sub@.len() - j,
    {
        all.push(sub[j]);
        j = j + 1;
    }
    assert(anchored(sub@).take(anchored(sub@).len() as int) == anchored(sub@));
    let mut key = String::new();
    let mut i: usize = 0;
    while i < all.len()
        invariant
            i <= all@.len(),
            key@ == collapse(all@.take(i as int)),
        decreases all@.len() - i,
    {
        proof {
            assert(all@.take(i + 1).drop_last() == all@.take(i as int));
        }
        if !(i > 0 && all[i] == '/' && all[i - 1] == '/') {
            push_char(&mut key, all[i]);
        }
        i = i + 1;
    }
    proof {
        assert(all@.take(all@.len() as int) == all@);
        lemma_collapse_no_double_slash(all@);
        if prefix@.len() > 0 && prefix@[0] == '/' {
            lemma_join_is_route_key(prefix@, subpath@);
        }
    }
    key
}

} // verus!
