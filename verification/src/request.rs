//! Request methods and the reading of a request from its text.
//!
//! `parse` says, over the characters of the text, what request it holds or
//! why it holds none. `Request::from_string` is proved to return exactly that.
use vstd::prelude::*;
use vstd::string::StringExecFns;
use crate::table::StrMap;
use crate::text::{
    find, find_pair, is_space, pair_position, position, skip_space, skip_word, slice, to_chars,
    to_text, trim_end, trim_end_len, word_end, word_start,
};

verus! {

/// The request methods that can be routed.
#[derive(Debug, Clone, Copy, PartialEq, Eq, Hash, Structural)]
pub enum HttpMethod {
    GET,
    POST,
    PUT,
    DELETE,
    PATCH,
    HEAD,
    OPTIONS,
}

/// The upper-case form of a word, as the standard library gives it: every
/// character is replaced by its upper-case mapping in Unicode, which may be
/// more than one character.
pub uninterp spec fn upper_cased(word: Seq<char>) -> Seq<char>;

/// The method whose name is exactly `name`.
pub open spec fn method_named(name: Seq<char>) -> Option<HttpMethod> {
    if name == HttpMethod::GET.name() {
        Some(HttpMethod::GET)
    } else if name == HttpMethod::POST.name() {
        Some(HttpMethod::POST)
    } else if name == HttpMethod::PUT.name() {
        Some(HttpMethod::PUT)
    } else if name == HttpMethod::DELETE.name() {
        Some(HttpMethod::DELETE)
    } else if name == HttpMethod::PATCH.name() {
        Some(HttpMethod::PATCH)
    } else if name == HttpMethod::HEAD.name() {
        Some(HttpMethod::HEAD)
    } else if name == HttpMethod::OPTIONS.name() {
        Some(HttpMethod::OPTIONS)
    } else {
        None
    }
}

/// The method that `word` names in any mix of upper and lower case: the
/// method whose name is the upper-case form of the word.
pub open spec fn method_of(word: Seq<char>) -> Option<HttpMethod> {
    method_named(upper_cased(word))
}

/// What is said of a word that names no method.
pub open spec fn unsupported_method(word: Seq<char>) -> Seq<char> {
    "Unsupported HTTP method: "@ + word
}

/// What is said of a text without a single line.
pub open spec fn empty_request() -> Seq<char> {
    "Empty request"@
}

/// What is said of a first line without a word.
pub open spec fn missing_method() -> Seq<char> {
    "No method in request"@
}

/// What is said of a first line without a second word.
pub open spec fn missing_path() -> Seq<char> {
    "Not found path"@
}

impl HttpMethod {
    /// The method's name in upper case.
    pub open spec fn name(self) -> Seq<char> {
        match self {
            HttpMethod::GET => seq!['G', 'E', 'T'],
            HttpMethod::POST => seq!['P', 'O', 'S', 'T'],
            HttpMethod::PUT => seq!['P', 'U', 'T'],
            HttpMethod::DELETE => seq!['D', 'E', 'L', 'E', 'T', 'E'],
            HttpMethod::PATCH => seq!['P', 'A', 'T', 'C', 'H'],
            HttpMethod::HEAD => seq!['H', 'E', 'A', 'D'],
            HttpMethod::OPTIONS => seq!['O', 'P', 'T', 'I', 'O', 'N', 'S'],
        }
    }

    /// Every method, in the order of their declaration.
    pub open spec fn every() -> Seq<HttpMethod> {
        seq![
            HttpMethod::GET,
            HttpMethod::POST,
            HttpMethod::PUT,
            HttpMethod::DELETE,
            HttpMethod::PATCH,
            HttpMethod::HEAD,
            HttpMethod::OPTIONS,
        ]
    }

    /// Every method, each once.
    pub fn all() -> (methods: Vec<Self>)
        ensures
            methods@ == Self::every(),
            forall|m: HttpMethod| methods@.contains(m),
    {
        let mut methods: Vec<HttpMethod> = Vec::new();
        methods.push(HttpMethod::GET);
        methods.push(HttpMethod::POST);
        methods.push(HttpMethod::PUT);
        methods.push(HttpMethod::DELETE);
        methods.push(HttpMethod::PATCH);
        methods.push(HttpMethod::HEAD);
        methods.push(HttpMethod::OPTIONS);
        proof {
            assert forall|m: HttpMethod| methods@.contains(m) by {
                match m {
                    HttpMethod::GET => assert(methods@[0] == m),
                    HttpMethod::POST => assert(methods@[1] == m),
                    HttpMethod::PUT => assert(methods@[2] == m),
                    HttpMethod::DELETE => assert(methods@[3] == m),
                    HttpMethod::PATCH => assert(methods@[4] == m),
                    HttpMethod::HEAD => assert(methods@[5] == m),
                    HttpMethod::OPTIONS => assert(methods@[6] == m),
                }
            }
        }
        methods
    }

    /// The method's name in upper case.
    pub fn as_str(&self) -> (s: &'static str)
        ensures
            s@ == self.name(),
    {
        match self {
            HttpMethod::GET => {
                proof {
                    reveal_strlit("GET");
                }
                "GET"
            },
            HttpMethod::POST => {
                proof {
                    reveal_strlit("POST");
                }
                "POST"
            },
            HttpMethod::PUT => {
                proof {
                    reveal_strlit("PUT");
                }
                "PUT"
            },
            HttpMethod::DELETE => {
                proof {
                    reveal_strlit("DELETE");
                }
                "DELETE"
            },
            HttpMethod::PATCH => {
                proof {
                    reveal_strlit("PATCH");
                }
                "PATCH"
            },
            HttpMethod::HEAD => {
                proof {
                    reveal_strlit("HEAD");
                }
                "HEAD"
            },
            HttpMethod::OPTIONS => {
                proof {
                    reveal_strlit("OPTIONS");
                }
                "OPTIONS"
            },
        }
    }

    /// The method's name in upper case, as an owned string.
    pub fn to_string(&self) -> (s: String)
        ensures
            s@ == self.name(),
    {
        String::from_str(self.as_str())
    }

    /// The method whose name is exactly `name`, if there is one.
    pub fn from_name(name: &str) -> (r: Option<HttpMethod>)
        ensures
            r == method_named(name@),
    {
        let word: Vec<char> = to_chars(name);
        if is_name(&word, HttpMethod::GET) {
            Some(HttpMethod::GET)
        } else if is_name(&word, HttpMethod::POST) {
            Some(HttpMethod::POST)
        } else if is_name(&word, HttpMethod::PUT) {
            Some(HttpMethod::PUT)
        } else if is_name(&word, HttpMethod::DELETE) {
            Some(HttpMethod::DELETE)
        } else if is_name(&word, HttpMethod::PATCH) {
            Some(HttpMethod::PATCH)
        } else if is_name(&word, HttpMethod::HEAD) {
            Some(HttpMethod::HEAD)
        } else if is_name(&word, HttpMethod::OPTIONS) {
            Some(HttpMethod::OPTIONS)
        } else {
            None
        }
    }

    /// Reads a method from a word that names it in any mix of upper and
    /// lower case: the word is put into upper case and has to be the name of
    /// a method then.
    pub fn from_str(s: &str) -> (r: Result<HttpMethod, String>)
        ensures
            match method_of(s@) {
                Some(m) => r == Ok::<HttpMethod, String>(m),
                None => r is Err && r->Err_0@ == unsupported_method(s@),
            },
    {
        let upper: String = to_upper(s);
        match Self::from_name(upper.as_str()) {
            Some(m) => Ok(m),
            None => {
                let mut msg: String = String::from_str("Unsupported HTTP method: ");
                msg.append(s);
                Err(msg)
            },
        }
    }
}

impl std::str::FromStr for HttpMethod {
    type Err = String;

    /// Reads a method from a word that names it in any mix of upper and
    /// lower case: the method that `method_of` finds, or what is said of a
    /// word that names none.
    fn from_str(s: &str) -> (r: Result<HttpMethod, String>)
        ensures
            match method_of(s@) {
                Some(m) => r == Ok::<HttpMethod, String>(m),
                None => r is Err && r->Err_0@ == unsupported_method(s@),
            },
    {
        HttpMethod::from_str(s)
    }
}

/// Puts a word into upper case.
///
/// Trusted: the body is `str::to_uppercase`, which the standard library
/// documents as returning the upper-case equivalent of the string, by the
/// Unicode property `Uppercase`. The result depends on the word alone; it is
/// named, not spelled out.
#[verifier::external_body]
fn to_upper(s: &str) -> (r: String)
    ensures
        r@ == upper_cased(s@),
{
    s.to_uppercase()
}

/// Tells whether `word` is the name of the method `m`.
fn is_name(word: &Vec<char>, m: HttpMethod) -> (r: bool)
    ensures
        r == (word@ == m.name()),
{
    let name: Vec<char> = to_chars(m.as_str());
    if word.len() != name.len() {
        return false;
    }
    let mut i: usize = 0;
    while i < word.len()
        invariant
            i <= word@.len(),
            word@.len() == name@.len(),
            name@ == m.name(),
            forall|j: int| 0 <= j < i ==> word@[j] == name@[j],
        decreases word@.len() - i,
    {
        if word[i] != name[i] {
            return false;
        }
        i = i + 1;
    }
    assert(word@ =~= name@);
    true
}

/// The line that starts at `from`, without its line ending. A line ends at
/// the next line feed, or at the end of the text; a carriage return
/// directly before the line feed belongs to the ending.
pub open spec fn line_at(s: Seq<char>, from: int) -> Seq<char> {
    let end = position(s, '\n', from);
    if end < s.len() && from < end && s[end - 1] == '\r' {
        s.subrange(from, end - 1)
    } else {
        s.subrange(from, end)
    }
}

/// Where the line after the one at `from` starts; `s.len()` when the line
/// at `from` is the last one.
pub open spec fn next_line(s: Seq<char>, from: int) -> int {
    let end = position(s, '\n', from);
    if end < s.len() {
        end + 1
    } else {
        s.len() as int
    }
}

/// The first word of a request line: the method's name.
pub open spec fn method_word(line: Seq<char>) -> Seq<char> {
    let start = word_start(line, 0);
    line.subrange(start, word_end(line, start))
}

/// The second word of a request line: the path with its query.
pub open spec fn target_word(line: Seq<char>) -> Seq<char> {
    let start = word_start(line, word_end(line, word_start(line, 0)));
    line.subrange(start, word_end(line, start))
}

/// The part of a target before its first `?`.
pub open spec fn path_of(target: Seq<char>) -> Seq<char> {
    target.take(position(target, '?', 0))
}

/// `fields` with the pair that `piece` holds, if it holds one: what stands
/// before the first `=` is the key, what stands after it the value.
pub open spec fn with_pair(fields: Map<Seq<char>, Seq<char>>, piece: Seq<char>) -> Map<
    Seq<char>,
    Seq<char>,
> {
    let eq = position(piece, '=', 0);
    if eq < piece.len() {
        fields.insert(piece.take(eq), piece.skip(eq + 1))
    } else {
        fields
    }
}

/// `fields` with the pairs of the pieces of `target` from `from` on, each
/// piece running to the next `?`; a later pair replaces an earlier one with
/// the same key.
pub open spec fn query_pairs(
    target: Seq<char>,
    from: int,
    fields: Map<Seq<char>, Seq<char>>,
) -> Map<Seq<char>, Seq<char>>
    decreases target.len() - from,
{
    if from < 0 || from > target.len() {
        fields
    } else {
        let end = position(target, '?', from);
        let more = with_pair(fields, target.subrange(from, end));
        if from <= end < target.len() {
            query_pairs(target, end + 1, more)
        } else {
            more
        }
    }
}

/// The query arguments of a target: the pairs of the pieces after its first `?`.
pub open spec fn args_of(target: Seq<char>) -> Map<Seq<char>, Seq<char>> {
    let mark = position(target, '?', 0);
    if mark < target.len() {
        query_pairs(target, mark + 1, Map::empty())
    } else {
        Map::empty()
    }
}

/// `fields` with the header that `line` holds, if it holds one: what stands
/// before the first `": "` is the name, what stands after it the value.
pub open spec fn with_header(fields: Map<Seq<char>, Seq<char>>, line: Seq<char>) -> Map<
    Seq<char>,
    Seq<char>,
> {
    let sep = pair_position(line, ':', ' ', 0);
    if sep < line.len() {
        fields.insert(line.take(sep), line.skip(sep + 2))
    } else {
        fields
    }
}

/// `fields` with the headers of the lines from `from` up to the first empty
/// line; a later header replaces an earlier one with the same name.
pub open spec fn header_fields(
    s: Seq<char>,
    from: int,
    fields: Map<Seq<char>, Seq<char>>,
) -> Map<Seq<char>, Seq<char>>
    decreases s.len() - from,
{
    if from < 0 || from >= s.len() {
        fields
    } else if line_at(s, from).len() == 0 {
        fields
    } else {
        let more = with_header(fields, line_at(s, from));
        if from < next_line(s, from) {
            header_fields(s, next_line(s, from), more)
        } else {
            more
        }
    }
}

/// Where the body starts: directly after the first empty line at or after
/// `from`; `s.len()` when there is no empty line.
pub open spec fn body_start(s: Seq<char>, from: int) -> int
    decreases s.len() - from,
{
    if from < 0 || from >= s.len() {
        s.len() as int
    } else if line_at(s, from).len() == 0 {
        next_line(s, from)
    } else if from < next_line(s, from) {
        body_start(s, next_line(s, from))
    } else {
        s.len() as int
    }
}

/// The body: all that follows the first empty line after the request line,
/// without the white space at its end.
pub open spec fn body_of(s: Seq<char>) -> Seq<char> {
    trim_end(s.skip(body_start(s, next_line(s, 0))))
}

/// What a request holds, as plain values.
pub struct RequestView {
    pub method: HttpMethod,
    pub path: Seq<char>,
    pub args: Map<Seq<char>, Seq<char>>,
    pub headers: Map<Seq<char>, Seq<char>>,
    pub body: Seq<char>,
}

/// The request that the text `s` holds, or what is wrong with it.
///
/// The first line gives the method and the target, as its first two words;
/// the first word, put into upper case, has to be the name of a method.
/// The target gives the path, up to its first `?`, and the query arguments.
/// The lines that follow are headers, up to the first empty line; all after
/// that line is the body.
pub open spec fn parse(s: Seq<char>) -> Result<RequestView, Seq<char>> {
    let line = line_at(s, 0);
    if s.len() == 0 {
        Err(empty_request())
    } else if method_word(line).len() == 0 {
        Err(missing_method())
    } else if method_of(method_word(line)) is None {
        Err(unsupported_method(method_word(line)))
    } else if target_word(line).len() == 0 {
        Err(missing_path())
    } else {
        Ok(
            RequestView {
                method: method_of(method_word(line))->Some_0,
                path: path_of(target_word(line)),
                args: args_of(target_word(line)),
                headers: header_fields(s, next_line(s, 0), Map::empty()),
                body: body_of(s),
            },
        )
    }
}

/// The values of a map of strings, each as its characters.
pub open spec fn texts(m: Map<Seq<char>, String>) -> Map<Seq<char>, Seq<char>> {
    m.map_values(|v: String| v@)
}

/// `texts` of a map with one more entry is `texts` of the map with that entry.
pub proof fn lemma_texts_insert(m: Map<Seq<char>, String>, k: Seq<char>, v: String)
    ensures
        texts(m.insert(k, v)) == texts(m).insert(k, v@),
{
}

/// A request, read from its text.
#[derive(Debug)]
pub struct Request {
    pub method: HttpMethod,
    pub path: String,
    pub args: StrMap<String>,
    pub headers: StrMap<String>,
    pub body: String,
}

impl View for Request {
    type V = RequestView;

    open spec fn view(&self) -> RequestView {
        RequestView {
            method: self.method,
            path: self.path@,
            args: texts(self.args@),
            headers: texts(self.headers@),
            body: self.body@,
        }
    }
}

/// The line that starts at `from`.
fn read_line(s: &Vec<char>, from: usize) -> (line: Vec<char>)
    requires
        from <= s@.len(),
    ensures
        line@ == line_at(s@, from as int),
{
    let end: usize = find(s, '\n', from);
    if end < s.len() && from < end && s[end - 1] == '\r' {
        slice(s, from, end - 1)
    } else {
        slice(s, from, end)
    }
}

/// Where the line after the one at `from` starts.
fn after_line(s: &Vec<char>, from: usize) -> (next: usize)
    requires
        from < s@.len(),
    ensures
        next == next_line(s@, from as int),
        from < next <= s@.len(),
{
    let end: usize = find(s, '\n', from);
    if end < s.len() {
        end + 1
    } else {
        s.len()
    }
}

/// Stores the pair that `piece` holds, if it holds one.
fn add_pair(fields: &mut StrMap<String>, piece: &Vec<char>)
    ensures
        texts(final(fields)@) == with_pair(texts(old(fields)@), piece@),
{
    let eq: usize = find(piece, '=', 0);
    if eq < piece.len() {
        let key: String = to_text(piece, 0, eq);
        let val: String = to_text(piece, eq + 1, piece.len());
        proof {
            lemma_texts_insert(fields@, key@, val);
        }
        fields.insert(key, val);
    }
}

/// Stores the header that `line` holds, if it holds one.
fn add_header(fields: &mut StrMap<String>, line: &Vec<char>)
    ensures
        texts(final(fields)@) == with_header(texts(old(fields)@), line@),
{
    let sep: usize = find_pair(line, ':', ' ', 0);
    if sep < line.len() {
        let key: String = to_text(line, 0, sep);
        let val: String = to_text(line, sep + 2, line.len());
        proof {
            lemma_texts_insert(fields@, key@, val);
        }
        fields.insert(key, val);
    }
}

/// The query arguments of a target.
fn read_args(target: &Vec<char>) -> (args: StrMap<String>)
    ensures
        texts(args@) == args_of(target@),
{
    let mut args: StrMap<String> = StrMap::new();
    assert(texts(args@) =~= Map::<Seq<char>, Seq<char>>::empty());
    let mark: usize = find(target, '?', 0);
    if mark >= target.len() {
        return args;
    }
    let mut from: usize = mark + 1;
    loop
        invariant
            from <= target@.len(),
            args_of(target@) == query_pairs(target@, from as int, texts(args@)),
        decreases target@.len() - from,
    {
        let end: usize = find(target, '?', from);
        let piece: Vec<char> = slice(target, from, end);
        add_pair(&mut args, &piece);
        if end < target.len() {
            from = end + 1;
        } else {
            return args;
        }
    }
}

/// The headers of the lines from `from` up to the first empty line.
fn read_headers(s: &Vec<char>, from: usize) -> (headers: StrMap<String>)
    requires
        from <= s@.len(),
    ensures
        texts(headers@) == header_fields(s@, from as int, Map::empty()),
{
    let mut headers: StrMap<String> = StrMap::new();
    assert(texts(headers@) =~= Map::<Seq<char>, Seq<char>>::empty());
    let mut at: usize = from;
    while at < s.len()
        invariant
            at <= s@.len(),
            header_fields(s@, from as int, Map::empty()) == header_fields(
                s@,
                at as int,
                texts(headers@),
            ),
        decreases s@.len() - at,
    {
        let line: Vec<char> = read_line(s, at);
        if line.len() == 0 {
            return headers;
        }
        add_header(&mut headers, &line);
        at = after_line(s, at);
    }
    headers
}

/// Where the body starts, looking for the empty line from `from` on.
fn find_body(s: &Vec<char>, from: usize) -> (start: usize)
    requires
        from <= s@.len(),
    ensures
        start == body_start(s@, from as int),
        start <= s@.len(),
{
    let mut at: usize = from;
    while at < s.len()
        invariant
            at <= s@.len(),
            body_start(s@, from as int) == body_start(s@, at as int),
        decreases s@.len() - at,
    {
        let line: Vec<char> = read_line(s, at);
        let next: usize = after_line(s, at);
        if line.len() == 0 {
            return next;
        }
        at = next;
    }
    at
}

impl Request {
    /// Reads a request from its text.
    ///
    /// Returns the request that `parse` finds in the text, or the message
    /// that `parse` gives for a text that holds none.
    pub fn from_string(request: &str) -> (r: Result<Self, String>)
        ensures
            match (parse(request@), r) {
                (Ok(v), Ok(req)) => req@ == v,
                (Err(e), Err(msg)) => msg@ == e,
                _ => false,
            },
            r matches Ok(req) ==> {
                &&& !req.path@.contains('?')
                &&& req.body@.len() > 0 ==> !is_space(req.body@.last())
            },
    {
        let s: Vec<char> = to_chars(request);
        if s.len() == 0 {
            return Err(String::from_str("Empty request"));
        }
        let line: Vec<char> = read_line(&s, 0);
        let a: usize = skip_space(&line, 0);
        let b: usize = skip_word(&line, a);
        if a == b {
            return Err(String::from_str("No method in request"));
        }
        let name: String = to_text(&line, a, b);
        let method: HttpMethod = match HttpMethod::from_str(name.as_str()) {
            Ok(m) => m,
            Err(msg) => {
                return Err(msg);
            },
        };
        let c: usize = skip_space(&line, b);
        let d: usize = skip_word(&line, c);
        if c == d {
            return Err(String::from_str("Not found path"));
        }
        let target: Vec<char> = slice(&line, c, d);
        let mark: usize = find(&target, '?', 0);
        let path: String = to_text(&target, 0, mark);
        let args: StrMap<String> = read_args(&target);
        let start: usize = after_line(&s, 0);
        let headers: StrMap<String> = read_headers(&s, start);
        let from: usize = find_body(&s, start);
        let n: usize = trim_end_len(&s, from);
        let body: String = to_text(&s, from, from + n);
        proof {
            assert(s@.subrange(from as int, from + n) == s@.skip(from as int).take(n as int));
        }
        Ok(Request { method, path, args, headers, body })
    }
}

} // verus!
