//! Character-level building blocks: scanning a sequence of characters for a
//! separator, cutting pieces out of it, and writing numbers in decimal.
//!
//! Every scanner has a specification function over `Seq<char>` that names the
//! position it finds, and an executable twin over `Vec<char>` that is proved
//! to return exactly that position.
use vstd::prelude::*;

verus! {

/// The characters that carry the Unicode `White_Space` property.
pub open spec fn is_space(c: char) -> bool {
    ||| '\u{9}' <= c <= '\u{d}'
    ||| c == ' '
    ||| c == '\u{85}'
    ||| c == '\u{a0}'
    ||| c == '\u{1680}'
    ||| '\u{2000}' <= c <= '\u{200a}'
    ||| c == '\u{2028}'
    ||| c == '\u{2029}'
    ||| c == '\u{202f}'
    ||| c == '\u{205f}'
    ||| c == '\u{3000}'
}

/// Index of the first `c` in `s` at or after `from`; `s.len()` when there is none.
pub open spec fn position(s: Seq<char>, c: char, from: int) -> int
    decreases s.len() - from,
{
    if from < 0 || from >= s.len() {
        s.len() as int
    } else if s[from] == c {
        from
    } else {
        position(s, c, from + 1)
    }
}

/// Index of the first place at or after `from` where `a` is directly
/// followed by `b`; `s.len()` when there is none.
pub open spec fn pair_position(s: Seq<char>, a: char, b: char, from: int) -> int
    decreases s.len() - from,
{
    if from < 0 || from + 1 >= s.len() {
        s.len() as int
    } else if s[from] == a && s[from + 1] == b {
        from
    } else {
        pair_position(s, a, b, from + 1)
    }
}

/// Index of the first character at or after `from` that is not white space;
/// `s.len()` when only white space is left.
pub open spec fn word_start(s: Seq<char>, from: int) -> int
    decreases s.len() - from,
{
    if from < 0 || from >= s.len() {
        s.len() as int
    } else if !is_space(s[from]) {
        from
    } else {
        word_start(s, from + 1)
    }
}

/// Index of the first white-space character at or after `from`; `s.len()`
/// when the word runs to the end.
pub open spec fn word_end(s: Seq<char>, from: int) -> int
    decreases s.len() - from,
{
    if from < 0 || from >= s.len() {
        s.len() as int
    } else if is_space(s[from]) {
        from
    } else {
        word_end(s, from + 1)
    }
}

/// Length of `s` once the white space at its end is cut off.
pub open spec fn trimmed_len(s: Seq<char>) -> int
    decreases s.len(),
{
    if s.len() == 0 {
        0
    } else if is_space(s.last()) {
        trimmed_len(s.drop_last())
    } else {
        s.len() as int
    }
}

/// `s` without the white space at its end.
pub open spec fn trim_end(s: Seq<char>) -> Seq<char> {
    s.take(trimmed_len(s))
}

/// The decimal digit for a value below ten.
pub open spec fn digit(d: nat) -> char {
    if d == 0 {
        '0'
    } else if d == 1 {
        '1'
    } else if d == 2 {
        '2'
    } else if d == 3 {
        '3'
    } else if d == 4 {
        '4'
    } else if d == 5 {
        '5'
    } else if d == 6 {
        '6'
    } else if d == 7 {
        '7'
    } else if d == 8 {
        '8'
    } else {
        '9'
    }
}

/// `n` written in base ten, most significant digit first, without padding.
pub open spec fn decimal(n: nat) -> Seq<char>
    decreases n,
{
    if n < 10 {
        seq![digit(n)]
    } else {
        decimal(n / 10).push(digit(n % 10))
    }
}

/// `position` finds an index in range, nothing before it is `c`, and what it
/// points at, if anything, is `c`.
pub proof fn lemma_position(s: Seq<char>, c: char, from: int)
    requires
        0 <= from <= s.len(),
    ensures
        from <= position(s, c, from) <= s.len(),
        forall|j: int| from <= j < position(s, c, from) ==> s[j] != c,
        position(s, c, from) < s.len() ==> s[position(s, c, from)] == c,
    decreases s.len() - from,
{
    if from < s.len() && s[from] != c {
        lemma_position(s, c, from + 1);
    }
}

/// `pair_position` finds an index in range, no pair starts before it, and
/// where it points, if anywhere, the pair stands.
pub proof fn lemma_pair_position(s: Seq<char>, a: char, b: char, from: int)
    requires
        0 <= from <= s.len(),
    ensures
        from <= pair_position(s, a, b, from) <= s.len(),
        forall|j: int|
            from <= j < pair_position(s, a, b, from) && j + 1 < s.len() ==> !(#[trigger] s[j] == a
                && s[j + 1] == b),
        pair_position(s, a, b, from) < s.len() ==> {
            &&& pair_position(s, a, b, from) + 1 < s.len()
            &&& s[pair_position(s, a, b, from)] == a
            &&& s[pair_position(s, a, b, from) + 1] == b
        },
    decreases s.len() - from,
{
    if from + 1 < s.len() && !(s[from] == a && s[from + 1] == b) {
        lemma_pair_position(s, a, b, from + 1);
    }
}

/// A word found by `word_start` and `word_end` lies in range, holds no white
/// space, and is not empty unless the sequence ran out.
pub proof fn lemma_word(s: Seq<char>, from: int)
    requires
        0 <= from <= s.len(),
    ensures
        from <= word_start(s, from) <= s.len(),
        from <= word_end(s, from) <= s.len(),
        forall|j: int| from <= j < word_start(s, from) ==> is_space(s[j]),
        forall|j: int| from <= j < word_end(s, from) ==> !is_space(s[j]),
        word_start(s, from) < s.len() ==> !is_space(s[word_start(s, from)]),
        word_end(s, from) < s.len() ==> is_space(s[word_end(s, from)]),
    decreases s.len() - from,
{
    if from < s.len() {
        lemma_word(s, from + 1);
    }
}

/// What `trim_end` keeps does not end in white space, and what it cuts off is
/// white space only.
pub proof fn lemma_trim_end(s: Seq<char>)
    ensures
        0 <= trimmed_len(s) <= s.len(),
        trimmed_len(s) > 0 ==> !is_space(s[trimmed_len(s) - 1]),
        forall|j: int| trimmed_len(s) <= j < s.len() ==> is_space(s[j]),
    decreases s.len(),
{
    if s.len() > 0 && is_space(s.last()) {
        lemma_trim_end(s.drop_last());
        assert forall|j: int| trimmed_len(s) <= j < s.len() implies is_space(s[j]) by {
            if j < s.len() - 1 {
                assert(s[j] == s.drop_last()[j]);
            }
        }
    }
}

/// Appends one character to a string.
///
/// Trusted: the body is `String::push`, which the standard library documents
/// as appending the given `char` to the end of the string.
#[verifier::external_body]
pub(crate) fn push_char(s: &mut String, c: char)
    ensures
        final(s)@ == old(s)@.push(c),
{
    s.push(c)
}

/// Tells whether `c` is white space.
pub fn is_space_char(c: char) -> (r: bool)
    ensures
        r == is_space(c),
{
    ('\u{9}' <= c && c <= '\u{d}') || c == ' ' || c == '\u{85}' || c == '\u{a0}' || c
        == '\u{1680}' || ('\u{2000}' <= c && c <= '\u{200a}') || c == '\u{2028}' || c
        == '\u{2029}' || c == '\u{202f}' || c == '\u{205f}' || c == '\u{3000}'
}

/// The characters of `s`, in order.
pub fn to_chars(s: &str) -> (v: Vec<char>)
    ensures
        v@ == s@,
{
    let mut v: Vec<char> = Vec::new();
    for c in it: s.chars()
        invariant
            it.seq() == s@,
            v@ == it.seq().take(it.index() as int),
    {
        v.push(c);
    }
    v
}

/// The characters `v[from..to]` as a string.
pub fn to_text(v: &Vec<char>, from: usize, to: usize) -> (s: String)
    requires
        from <= to <= v@.len(),
    ensures
        s@ == v@.subrange(from as int, to as int),
{
    let mut s = String::new();
    let mut i: usize = from;
    while i < to
        invariant
            from <= i <= to <= v@.len(),
            s@ == v@.subrange(from as int, i as int),
        decreases to - i,
    {
        push_char(&mut s, v[i]);
        i = i + 1;
    }
    s
}

/// The characters `v[from..to]` as a vector of their own.
pub fn slice(v: &Vec<char>, from: usize, to: usize) -> (r: Vec<char>)
    requires
        from <= to <= v@.len(),
    ensures
        r@ == v@.subrange(from as int, to as int),
{
    let mut r: Vec<char> = Vec::new();
    let mut i: usize = from;
    while i < to
        invariant
            from <= i <= to <= v@.len(),
            r@ == v@.subrange(from as int, i as int),
        decreases to - i,
    {
        r.push(v[i]);
        i = i + 1;
    }
    r
}

/// Finds the first `c` at or after `from`; returns the length where there
/// is none.
pub fn find(v: &Vec<char>, c: char, from: usize) -> (r: usize)
    requires
        from <= v@.len(),
    ensures
        r == position(v@, c, from as int),
        from <= r <= v@.len(),
        forall|j: int| from <= j < r ==> v@[j] != c,
        r < v@.len() ==> v@[r as int] == c,
{
    proof {
        lemma_position(v@, c, from as int);
    }
    let mut i: usize = from;
    while i < v.len() && v[i] != c
        invariant
            from <= i <= v@.len(),
            position(v@, c, from as int) == position(v@, c, i as int),
        decreases v@.len() - i,
    {
        i = i + 1;
    }
    i
}

/// Finds the first place at or after `from` where `a` is directly followed
/// by `b`; returns the length where there is none.
pub fn find_pair(v: &Vec<char>, a: char, b: char, from: usize) -> (r: usize)
    requires
        from <= v@.len(),
    ensures
        r == pair_position(v@, a, b, from as int),
        from <= r <= v@.len(),
        forall|j: int|
            from <= j < r && j + 1 < v@.len() ==> !(#[trigger] v@[j] == a && v@[j + 1] == b),
        r < v@.len() ==> r + 1 < v@.len() && v@[r as int] == a && v@[r + 1] == b,
{
    proof {
        lemma_pair_position(v@, a, b, from as int);
    }
    let n: usize = v.len();
    let mut i: usize = from;
    while i < n && i + 1 < n && !(v[i] == a && v[i + 1] == b)
        invariant
            n == v@.len(),
            from <= i <= n,
            pair_position(v@, a, b, from as int) == pair_position(v@, a, b, i as int),
        decreases n - i,
    {
        i = i + 1;
    }
    if i < n && i + 1 < n {
        i
    } else {
        n
    }
}

/// Skips the white space at and after `from`: returns where the next word
/// starts, or the length where only white space is left.
pub fn skip_space(v: &Vec<char>, from: usize) -> (r: usize)
    requires
        from <= v@.len(),
    ensures
        r == word_start(v@, from as int),
        from <= r <= v@.len(),
        forall|j: int| from <= j < r ==> is_space(v@[j]),
        r < v@.len() ==> !is_space(v@[r as int]),
{
    proof {
        lemma_word(v@, from as int);
    }
    let mut i: usize = from;
    while i < v.len() && is_space_char(v[i])
        invariant
            from <= i <= v@.len(),
            word_start(v@, from as int) == word_start(v@, i as int),
        decreases v@.len() - i,
    {
        i = i + 1;
    }
    i
}

/// Runs to the end of the word that starts at `from`: returns where the
/// next white space stands, or the length where there is none.
pub fn skip_word(v: &Vec<char>, from: usize) -> (r: usize)
    requires
        from <= v@.len(),
    ensures
        r == word_end(v@, from as int),
        from <= r <= v@.len(),
        forall|j: int| from <= j < r ==> !is_space(v@[j]),
        r < v@.len() ==> is_space(v@[r as int]),
{
    proof {
        lemma_word(v@, from as int);
    }
    let mut i: usize = from;
    while i < v.len() && !is_space_char(v[i])
        invariant
            from <= i <= v@.len(),
            word_end(v@, from as int) == word_end(v@, i as int),
        decreases v@.len() - i,
    {
        i = i + 1;
    }
    i
}

/// Length of `v[from..]` once the white space at its end is cut off: what
/// is kept does not end in white space, and what is cut off is white space
/// only.
pub fn trim_end_len(v: &Vec<char>, from: usize) -> (r: usize)
    requires
        from <= v@.len(),
    ensures
        r == trimmed_len(v@.skip(from as int)),
        from + r <= v@.len(),
        r > 0 ==> !is_space(v@[from + r - 1]),
        forall|j: int| from + r <= j < v@.len() ==> is_space(v@[j]),
{
    let ghost tail = v@.skip(from as int);
    proof {
        lemma_trim_end(tail);
        assert forall|j: int| from + trimmed_len(tail) <= j < v@.len() implies is_space(v@[j]) by {
            assert(v@[j] == tail[j - from]);
        }
    }
    let mut end: usize = v.len();
    assert(tail.take(end - from) == tail);
    while end > from && is_space_char(v[end - 1])
        invariant
            from <= end <= v@.len(),
            tail == v@.skip(from as int),
            trimmed_len(tail) == trimmed_len(tail.take(end - from)),
        decreases end,
    {
        proof {
            assert(tail.take(end - from).drop_last() == tail.take(end - 1 - from));
        }
        end = end - 1;
    }
    end - from
}

/// The digit character for a value below ten.
pub fn digit_char(d: usize) -> (c: char)
    requires
        d < 10,
    ensures
        c == digit(d as nat),
{
    if d == 0 {
        '0'
    } else if d == 1 {
        '1'
    } else if d == 2 {
        '2'
    } else if d == 3 {
        '3'
    } else if d == 4 {
        '4'
    } else if d == 5 {
        '5'
    } else if d == 6 {
        '6'
    } else if d == 7 {
        '7'
    } else if d == 8 {
        '8'
    } else {
        '9'
    }
}

/// Appends `n` in decimal to `out`.
pub fn push_decimal(out: &mut String, n: usize)
    ensures
        final(out)@ == old(out)@ + decimal(n as nat),
    decreases n,
{
    if n >= 10 {
        push_decimal(out, n / 10);
    }
    push_char(out, digit_char(n % 10));
}

} // verus!
