//! The bundled example application: a small todo list served over raw HTTP.
//!
//! The library decides what a request asks for and writes every response; the
//! program around it reads the socket and runs the SQL.
use vstd::prelude::*;
use vstd::string::StrSliceExecFns;
use vstd::utf8::encode_utf8;
use crate::cgi::{first_word, first_word_bounds};
use crate::num::{i64_to_string, int_decimal, parse_i64, parse_i64_spec};
use crate::text::{
    chars_of, find, find_char, find_char_in, find_in, join_spec, join_strings, lemma_find, lemma_find_char,
    lines, str_eq,
    starts_with, string_of_range, trim, trim_start, trim_string,
};

verus! {

broadcast use vstd::string::group_string_axioms;

// ───────────────────────── specifications ─────────────────────────

/// The header block between the status and the body of a JSON response.
pub open spec fn json_head() -> Seq<char> {
    "\r\nContent-Type: application/json; charset=utf-8\r\nConnection: close\r\n\r\n"@
}

/// The header block between the status and the body of an HTML response.
pub open spec fn html_head() -> Seq<char> {
    "\r\nContent-Type: text/html; charset=utf-8\r\nConnection: close\r\n\r\n"@
}

/// A whole HTTP/1.1 response as text.
pub open spec fn response_text(status: Seq<char>, head: Seq<char>, body: Seq<char>) -> Seq<char> {
    "HTTP/1.1 "@ + status + head + body
}

/// One character as it appears inside a JSON string literal here: backslash
/// and double quote get a backslash before them.
pub open spec fn esc_char(c: char) -> Seq<char> {
    if c == '\\' {
        seq!['\\', '\\']
    } else if c == '"' {
        seq!['\\', '"']
    } else {
        seq![c]
    }
}

/// `s.replace('\\', "\\\\").replace('"', "\\\"")`, character by character.
pub open spec fn esc_spec(s: Seq<char>) -> Seq<char>
    decreases s.len(),
{
    if s.len() == 0 {
        Seq::empty()
    } else {
        esc_char(s[0]) + esc_spec(s.drop_first())
    }
}

/// `s.split(c).nth(n)`.
pub open spec fn nth_piece(s: Seq<char>, c: char, n: nat) -> Option<Seq<char>>
    decreases s.len(),
{
    match find_char(s, c) {
        Some(i) => {
            proof {
                lemma_find_char(s, c);
            }
            if n == 0 {
                Some(s.take(i))
            } else {
                nth_piece(s.skip(i + 1), c, (n - 1) as nat)
            }
        },
        None => if n == 0 {
            Some(s)
        } else {
            None
        },
    }
}

/// The string value of member `key` of the JSON document `doc`, as `serde_json`
/// reads it (`from_str::<Value>`, then `get(key)`, then `as_str`): `None` when
/// the document does not parse, has no such member, or it is not a string.
pub uninterp spec fn json_text_member(doc: Seq<char>, key: Seq<char>) -> Option<Seq<char>>;

/// The boolean value of member `key` of the JSON document `doc`, read the same
/// way with `as_bool`.
pub uninterp spec fn json_bool_member(doc: Seq<char>, key: Seq<char>) -> Option<bool>;

/// The todo id in a path `/api/todos/<id>`: the fourth `/`-separated piece,
/// parsed as an `i64`.
pub open spec fn todo_id(path: Seq<char>) -> Option<int> {
    match nth_piece(path, '/', 3) {
        Some(p) => parse_i64_spec(p),
        None => None,
    }
}

/// What a request asks for, in terms of mathematical strings.
pub enum TodoActionView {
    ServePage,
    ListTodos,
    CreateTodo(Seq<char>),
    SetDone(int, bool),
    DeleteTodo(int),
    Reply(Seq<char>, Seq<char>),
}

pub open spec fn not_found_body() -> Seq<char> {
    "{\"error\":\"Not found\"}"@
}

pub open spec fn invalid_id_body() -> Seq<char> {
    "{\"error\":\"Invalid id\"}"@
}

pub open spec fn title_required_body() -> Seq<char> {
    "{\"error\":\"Title required\"}"@
}

/// The decision for a request, given the `title` and `done` members read from
/// its JSON body, in the order of the routing table.
pub open spec fn todo_plan_fields(
    method: Seq<char>,
    path: Seq<char>,
    title: Option<Seq<char>>,
    done: Option<bool>,
) -> TodoActionView {
    if method == "GET"@ && path == "/"@ {
        TodoActionView::ServePage
    } else if method == "GET"@ && path == "/api/todos"@ {
        TodoActionView::ListTodos
    } else if method == "POST"@ && path == "/api/todos"@ {
        let title = match title {
            Some(t) => trim(t),
            None => Seq::empty(),
        };
        if title.len() == 0 {
            TodoActionView::Reply("400 Bad Request"@, title_required_body())
        } else {
            TodoActionView::CreateTodo(title)
        }
    } else if method == "PUT"@ && path == "/api/todos"@ {
        TodoActionView::Reply("404 Not Found"@, not_found_body())
    } else if method == "PUT"@ && starts_with(path, "/api/todos/"@) {
        match todo_id(path) {
            Some(id) => TodoActionView::SetDone(
                id,
                match done {
                    Some(d) => d,
                    None => false,
                },
            ),
            None => TodoActionView::Reply("400 Bad Request"@, invalid_id_body()),
        }
    } else if method == "DELETE"@ && starts_with(path, "/api/todos/"@) {
        match todo_id(path) {
            Some(id) => TodoActionView::DeleteTodo(id),
            None => TodoActionView::Reply("400 Bad Request"@, invalid_id_body()),
        }
    } else {
        TodoActionView::Reply("404 Not Found"@, not_found_body())
    }
}

/// The decision for a request, with the members read from its body by
/// `serde_json`.
pub open spec fn todo_plan(method: Seq<char>, path: Seq<char>, body: Seq<char>) -> TodoActionView {
    todo_plan_fields(method, path, json_text_member(body, "title"@), json_bool_member(body, "done"@))
}

/// The JSON for one stored todo (`created_at` goes in as stored).
pub open spec fn todo_json_spec(id: int, title: Seq<char>, done: int, created_at: Seq<char>) -> Seq<char> {
    "{\"id\":"@ + int_decimal(id) + ",\"title\":\""@ + esc_spec(title) + "\",\"done\":"@
        + int_decimal(done) + ",\"created_at\":\""@ + created_at + "\"}"@
}

/// The JSON answered for a todo just created.
pub open spec fn created_json_spec(id: int, title: Seq<char>) -> Seq<char> {
    "{\"id\":"@ + int_decimal(id) + ",\"title\":\""@ + esc_spec(title) + "\",\"done\":0}"@
}

/// The first line of a request (`lines().next()`, or empty).
pub open spec fn request_line(req: Seq<char>) -> Seq<char> {
    if lines(req).len() > 0 {
        lines(req)[0]
    } else {
        Seq::empty()
    }
}

/// `s.split_whitespace().nth(1)`.
pub open spec fn second_word(s: Seq<char>) -> Option<Seq<char>> {
    match first_word(s) {
        Some(w) => first_word(trim_start(s).skip(w.len() as int)),
        None => None,
    }
}

/// What the server reads from a raw request: the method (default `GET`), the
/// path without its query (default `/`), and the trimmed body after the blank
/// line (empty when there is none).
pub open spec fn parse_request_spec(req: Seq<char>) -> (Seq<char>, Seq<char>, Seq<char>) {
    let line = request_line(req);
    let method = match first_word(line) {
        Some(w) => w,
        None => "GET"@,
    };
    let target = match second_word(line) {
        Some(w) => w,
        None => "/"@,
    };
    let path = match nth_piece(target, '?', 0) {
        Some(p) => p,
        None => "/"@,
    };
    let body = match find(req, "\r\n\r\n"@) {
        Some(i) => trim(req.skip(i + 4)),
        None => Seq::empty(),
    };
    (method, path, body)
}


/// Reading an escaped string back: a backslash takes the character after it
/// literally.
pub open spec fn unesc_spec(t: Seq<char>) -> Seq<char>
    decreases t.len(),
{
    if t.len() == 0 {
        Seq::empty()
    } else if t[0] == '\\' && t.len() >= 2 {
        seq![t[1]] + unesc_spec(t.skip(2))
    } else {
        seq![t[0]] + unesc_spec(t.skip(1))
    }
}

// ───────────────────────── laws ─────────────────────────

/// What `esc` writes reads back as the text it came from: no character is lost or
/// changed by the escaping.
pub proof fn lemma_esc_reads_back(s: Seq<char>)
    ensures
        unesc_spec(esc_spec(s)) == s,
    decreases s.len(),
{
    if s.len() > 0 {
        let rest = esc_spec(s.drop_first());
        lemma_esc_reads_back(s.drop_first());
        let t = esc_char(s[0]) + rest;
        assert(esc_spec(s) == t);
        if s[0] == '\\' || s[0] == '"' {
            assert(t.skip(2) =~= rest);
            assert(t[1] == s[0]);
        } else {
            assert(t.skip(1) =~= rest);
        }
        assert(seq![s[0]] + s.drop_first() =~= s);
    } else {
        assert(esc_spec(s) =~= Seq::<char>::empty());
    }
}

// ───────────────────────── executable code ─────────────────────────

/// A response whose text is `HTTP/1.1 <status><head><body>`, as UTF-8 bytes.
fn response_bytes(status: &str, head: &str, body: &str) -> (r: Vec<u8>)
    ensures
        r@ == encode_utf8(response_text(status@, head@, body@)),
{
    let mut s = String::from_str("HTTP/1.1 ");
    s.append(status);
    s.append(head);
    s.append(body);
    s.as_str().as_bytes_vec()
}

/// A JSON response with the given status line text (such as `200 OK`).
pub fn json_response(status: &str, body: &str) -> (r: Vec<u8>)
    ensures
        r@ == encode_utf8(response_text(status@, json_head(), body@)),
{
    response_bytes(
        status,
        "\r\nContent-Type: application/json; charset=utf-8\r\nConnection: close\r\n\r\n",
        body,
    )
}

/// An HTML response with the given status line text.
pub fn html_response(status: &str, body: &str) -> (r: Vec<u8>)
    ensures
        r@ == encode_utf8(response_text(status@, html_head(), body@)),
{
    response_bytes(status, "\r\nContent-Type: text/html; charset=utf-8\r\nConnection: close\r\n\r\n", body)
}

/// Escapes backslashes and double quotes for a JSON string literal.
pub fn esc(s: &str) -> (r: String)
    ensures
        r@ == esc_spec(s@),
{
    let v = chars_of(s);
    let mut out = String::new();
    let mut i: usize = 0;
    assert(v@.skip(0) =~= v@);
    assert(out@ + esc_spec(v@) =~= esc_spec(v@));
    while i < v.len()
        invariant
            i <= v.len(),
            v@ == s@,
            esc_spec(s@) == out@ + esc_spec(v@.skip(i as int)),
        decreases v.len() - i,
    {
        let c = v[i];
        let ghost before = out@;
        proof {
            assert(v@.skip(i as int).drop_first() =~= v@.skip(i + 1));
            assert(v@.skip(i as int)[0] == c);
        }
        if c == '\\' {
            out.append("\\\\");
            proof {
                reveal_strlit("\\\\");
                assert(out@ =~= before + esc_char(c));
            }
        } else if c == '"' {
            out.append("\\\"");
            proof {
                reveal_strlit("\\\"");
                assert(out@ =~= before + esc_char(c));
            }
        } else {
            crate::text::push_char(&mut out, c);
            assert(out@ =~= before + esc_char(c));
        }
        i = i + 1;
        assert(before + esc_spec(v@.skip(i - 1)) =~= out@ + esc_spec(v@.skip(i as int)));
    }
    assert(out@ + esc_spec(v@.skip(i as int)) =~= out@);
    out
}

/// `serde_json::from_str::<serde_json::Value>`, then `Value::get` and
/// `Value::as_str`. The claim: the result is a function of the document and the
/// key, named `json_text_member`; nothing more is said of JSON here.
#[verifier::external_body]
fn json_text_field(doc: &str, key: &str) -> (r: Option<String>)
    ensures
        match r {
            Some(t) => json_text_member(doc@, key@) == Some(t@),
            None => json_text_member(doc@, key@) == None::<Seq<char>>,
        },
{
    match serde_json::from_str::<serde_json::Value>(doc) {
        Ok(v) => v.get(key).and_then(serde_json::Value::as_str).map(str::to_string),
        Err(_) => None,
    }
}

/// `serde_json::from_str::<serde_json::Value>`, then `Value::get` and
/// `Value::as_bool`. The claim: the result is a function of the document and the
/// key, named `json_bool_member`.
#[verifier::external_body]
fn json_bool_field(doc: &str, key: &str) -> (r: Option<bool>)
    ensures
        r == json_bool_member(doc@, key@),
{
    match serde_json::from_str::<serde_json::Value>(doc) {
        Ok(v) => v.get(key).and_then(serde_json::Value::as_bool),
        Err(_) => None,
    }
}

/// Bounds of `v[lo..hi].split(c).nth(n)`.
fn nth_piece_bounds(v: &Vec<char>, lo: usize, hi: usize, c: char, n: usize) -> (r: Option<(usize, usize)>)
    requires
        lo <= hi <= v.len(),
    ensures
        match r {
            Some((a, b)) => lo <= a <= b <= hi && nth_piece(v@.subrange(lo as int, hi as int), c, n as nat)
                == Some(v@.subrange(a as int, b as int)),
            None => nth_piece(v@.subrange(lo as int, hi as int), c, n as nat) == None::<Seq<char>>,
        },
{
    let mut start = lo;
    let mut k = n;
    loop
        invariant
            lo <= start <= hi <= v.len(),
            k <= n,
            nth_piece(v@.subrange(lo as int, hi as int), c, n as nat) == nth_piece(
                v@.subrange(start as int, hi as int),
                c,
                k as nat,
            ),
        decreases hi - start,
    {
        let ghost s = v@.subrange(start as int, hi as int);
        match find_char_in(v, start, hi, c) {
            Some(i) => {
                if k == 0 {
                    assert(s.take(i as int) =~= v@.subrange(start as int, start + i));
                    return Some((start, start + i));
                }
                assert(s.skip(i + 1) =~= v@.subrange(start + i + 1, hi as int));
                start = start + i + 1;
                k = k - 1;
            },
            None => {
                if k == 0 {
                    return Some((start, hi));
                }
                return None;
            },
        }
    }
}

/// What the example server does for a request, decided from its method, path
/// and body.
pub enum TodoAction {
    ServePage,
    ListTodos,
    CreateTodo { title: String },
    SetDone { id: i64, done: bool },
    DeleteTodo { id: i64 },
    Reply { status: String, body: String },
}

impl View for TodoAction {
    type V = TodoActionView;

    open spec fn view(&self) -> TodoActionView {
        match self {
            TodoAction::ServePage => TodoActionView::ServePage,
            TodoAction::ListTodos => TodoActionView::ListTodos,
            TodoAction::CreateTodo { title } => TodoActionView::CreateTodo(title@),
            TodoAction::SetDone { id, done } => TodoActionView::SetDone(*id as int, *done),
            TodoAction::DeleteTodo { id } => TodoActionView::DeleteTodo(*id as int),
            TodoAction::Reply { status, body } => TodoActionView::Reply(status@, body@),
        }
    }
}

/// The id in `/api/todos/<id>`.
fn parse_todo_id(path: &str) -> (r: Option<i64>)
    ensures
        match r {
            Some(x) => todo_id(path@) == Some(x as int),
            None => todo_id(path@) == None::<int>,
        },
{
    let v = chars_of(path);
    assert(v@.subrange(0, v.len() as int) =~= path@);
    match nth_piece_bounds(&v, 0, v.len(), '/', 3) {
        Some((a, b)) => parse_i64(&v, a, b),
        None => None,
    }
}

/// Whether `path` starts with `/api/todos/`.
fn is_todo_item_path(path: &str) -> (b: bool)
    ensures
        b == starts_with(path@, "/api/todos/"@),
{
    let v = chars_of(path);
    let p = chars_of("/api/todos/");
    assert(v@.subrange(0, v.len() as int) =~= path@);
    crate::text::starts_with_in(&v, 0, v.len(), &p)
}

/// Decides what a request to the example server asks for, given the `title`
/// and `done` members of its JSON body.
pub fn plan_with_fields(method: &str, path: &str, title: Option<String>, done: Option<bool>) -> (a: TodoAction)
    ensures
        a@ == todo_plan_fields(
            method@,
            path@,
            match title {
                Some(t) => Some(t@),
                None => None,
            },
            done,
        ),
{
    let is_get = str_eq(method, "GET");
    let is_post = str_eq(method, "POST");
    let is_put = str_eq(method, "PUT");
    let is_delete = str_eq(method, "DELETE");
    let is_root = str_eq(path, "/");
    let is_list = str_eq(path, "/api/todos");
    if is_get && is_root {
        TodoAction::ServePage
    } else if is_get && is_list {
        TodoAction::ListTodos
    } else if is_post && is_list {
        let title = match title {
            Some(t) => trim_string(t.as_str()),
            None => String::new(),
        };
        if title.as_str().is_empty() {
            TodoAction::Reply {
                status: String::from_str("400 Bad Request"),
                body: String::from_str("{\"error\":\"Title required\"}"),
            }
        } else {
            TodoAction::CreateTodo { title }
        }
    } else if is_put && is_list {
        TodoAction::Reply {
            status: String::from_str("404 Not Found"),
            body: String::from_str("{\"error\":\"Not found\"}"),
        }
    } else if is_put && is_todo_item_path(path) {
        match parse_todo_id(path) {
            Some(id) => {
                let done = match done {
                    Some(d) => d,
                    None => false,
                };
                TodoAction::SetDone { id, done }
            },
            None => TodoAction::Reply {
                status: String::from_str("400 Bad Request"),
                body: String::from_str("{\"error\":\"Invalid id\"}"),
            },
        }
    } else if is_delete && is_todo_item_path(path) {
        match parse_todo_id(path) {
            Some(id) => TodoAction::DeleteTodo { id },
            None => TodoAction::Reply {
                status: String::from_str("400 Bad Request"),
                body: String::from_str("{\"error\":\"Invalid id\"}"),
            },
        }
    } else {
        TodoAction::Reply {
            status: String::from_str("404 Not Found"),
            body: String::from_str("{\"error\":\"Not found\"}"),
        }
    }
}

/// Decides what a request to the example server asks for.
pub fn plan_request(method: &str, path: &str, body: &str) -> (a: TodoAction)
    ensures
        a@ == todo_plan(method@, path@, body@),
{
    plan_with_fields(method, path, json_text_field(body, "title"), json_bool_field(body, "done"))
}

/// The JSON for one stored todo.
pub fn todo_json(id: i64, title: &str, done: i32, created_at: &str) -> (s: String)
    ensures
        s@ == todo_json_spec(id as int, title@, done as int, created_at@),
{
    let mut s = String::from_str("{\"id\":");
    s.append(i64_to_string(id).as_str());
    s.append(",\"title\":\"");
    s.append(esc(title).as_str());
    s.append("\",\"done\":");
    s.append(i64_to_string(done as i64).as_str());
    s.append(",\"created_at\":\"");
    s.append(created_at);
    s.append("\"}");
    s
}

/// The JSON answered for a todo just created.
pub fn created_json(id: i64, title: &str) -> (s: String)
    ensures
        s@ == created_json_spec(id as int, title@),
{
    let mut s = String::from_str("{\"id\":");
    s.append(i64_to_string(id).as_str());
    s.append(",\"title\":\"");
    s.append(esc(title).as_str());
    s.append("\",\"done\":0}");
    s
}

/// The JSON array of already rendered items: `[` + items joined by `,` + `]`.
pub fn json_list(items: &Vec<String>) -> (s: String)
    ensures
        s@ == "["@ + join_spec(items@.map_values(|x: String| x@), ","@) + "]"@,
{
    let joined = join_strings(items, ",");
    let mut s = String::from_str("[");
    s.append(joined.as_str());
    s.append("]");
    s
}

/// Where the first line of the request `v` ends (its `\r\n` or `\n` excluded).
fn request_line_end(v: &Vec<char>) -> (e: usize)
    ensures
        e <= v.len(),
        request_line(v@) == v@.subrange(0, e as int),
{
    let e: usize = match find_char_in(v, 0, v.len(), '\n') {
        Some(i) => if i > 0 && v[i - 1] == '\r' {
            i - 1
        } else {
            i
        },
        None => v.len(),
    };
    proof {
        let s = v@;
        assert(v@.subrange(0, v.len() as int) =~= s);
        if s.len() > 0 {
            lemma_find_char(s, '\n');
            assert(lines(s).len() > 0);
        } else {
            assert(lines(s).len() == 0);
        }
        assert(request_line(s) =~= v@.subrange(0, e as int));
    }
    e
}

/// The second word of `v[0..e]`, or `/`.
fn request_target(v: &Vec<char>, e: usize) -> (t: Vec<char>)
    requires
        e <= v.len(),
    ensures
        t@ == match second_word(v@.subrange(0, e as int)) {
            Some(w) => w,
            None => "/"@,
        },
{
    match first_word_bounds(v, 0, e) {
        Some((a, b)) => {
            assert(trim_start(v@.subrange(0, e as int)).skip(b - a) =~= v@.subrange(b as int, e as int));
            match first_word_bounds(v, b, e) {
                Some((c, d)) => {
                    let mut t: Vec<char> = Vec::new();
                    let mut j = c;
                    while j < d
                        invariant
                            c <= j <= d <= v.len(),
                            t@ == v@.subrange(c as int, j as int),
                        decreases d - j,
                    {
                        t.push(v[j]);
                        j = j + 1;
                        assert(t@ =~= v@.subrange(c as int, j as int));
                    }
                    t
                },
                None => chars_of("/"),
            }
        },
        None => chars_of("/"),
    }
}

/// The trimmed text after the first blank line of `req`, or empty.
fn request_body(v: &Vec<char>) -> (b: String)
    ensures
        b@ == match find(v@, "\r\n\r\n"@) {
            Some(i) => trim(v@.skip(i + 4)),
            None => Seq::<char>::empty(),
        },
{
    let sep = chars_of("\r\n\r\n");
    proof {
        reveal_strlit("\r\n\r\n");
        assert(sep@.len() == 4);
    }
    assert(v@.subrange(0, v.len() as int) =~= v@);
    match find_in(v, 0, v.len(), &sep) {
        Some(i) => {
            assert(v@.skip(i + 4) =~= v@.subrange(i + 4, v.len() as int));
            let (a, b) = crate::text::trim_bounds(v, i + 4, v.len());
            string_of_range(v, a, b)
        },
        None => String::new(),
    }
}

/// Reads method, path and body from a raw request text.
pub fn parse_request(req: &str) -> (r: (String, String, String))
    ensures
        r.0@ == parse_request_spec(req@).0,
        r.1@ == parse_request_spec(req@).1,
        r.2@ == parse_request_spec(req@).2,
{
    let v = chars_of(req);
    let line_end = request_line_end(&v);
    let method = match first_word_bounds(&v, 0, line_end) {
        Some((a, b)) => string_of_range(&v, a, b),
        None => String::from_str("GET"),
    };
    let target = request_target(&v, line_end);
    assert(target@.subrange(0, target.len() as int) =~= target@);
    let path = match nth_piece_bounds(&target, 0, target.len(), '?', 0) {
        Some((a, b)) => string_of_range(&target, a, b),
        None => String::from_str("/"),
    };
    let body = request_body(&v);
    (method, path, body)
}

/// The page of the example todo app.
pub const TODO_PAGE: &'static str = r##"<!DOCTYPE html>
<html lang="en">
<head><meta charset="utf-8"><meta name="viewport" content="width=device-width,initial-scale=1">
<title>Todo App (Rust)</title>
<style>
*{margin:0;padding:0;box-sizing:border-box}
body{font-family:system-ui,-apple-system,sans-serif;background:#f4f4f5;color:#18181b;max-width:640px;margin:0 auto;padding:40px 20px}
h1{font-size:1.8rem;margin-bottom:4px}
.sub{color:#71717a;font-size:14px;margin-bottom:24px}
.tab{display:flex;gap:8px;margin-bottom:16px}
.tab button{padding:6px 16px;border:1px solid #d4d4d8;border-radius:6px;background:#fff;cursor:pointer;font-size:13px;color:#52525b}
.tab button.active{background:#d97706;color:#fff;border-color:#d97706}
form{display:flex;gap:8px;margin-bottom:20px}
form input{flex:1;padding:10px 14px;border:1px solid #d4d4d8;border-radius:8px;font-size:14px;outline:none}
form input:focus{border-color:#d97706;box-shadow:0 0 0 3px rgba(217,119,6,.1)}
form button{padding:10px 20px;background:#d97706;color:#fff;border:none;border-radius:8px;cursor:pointer;font-size:14px;font-weight:500}
.todo{display:flex;align-items:center;gap:12px;padding:12px 16px;background:#fff;border:1px solid #e4e4e7;border-radius:8px;margin-bottom:8px;cursor:pointer}
.todo:hover{box-shadow:0 1px 4px rgba(0,0,0,.06)}
.todo.done .title{text-decoration:line-through;color:#a1a1aa}
.todo .title{flex:1;font-size:14px}
.todo .meta{font-size:11px;color:#a1a1aa}
.todo button{background:none;border:none;color:#dc2626;cursor:pointer;font-size:16px;padding:4px;opacity:0}
.todo:hover button{opacity:1}
.empty{text-align:center;color:#a1a1aa;padding:40px 0;font-size:14px}
.badge{display:inline-block;background:#d97706;color:#fff;font-size:11px;padding:2px 10px;border-radius:999px;margin-left:8px;vertical-align:middle}
</style>
</head>
<body>
<h1>Todos <span class="badge">Rust + SQLite</span></h1>
<p class="sub">A full-stack CRUD app with rusqlite</p>
<div class="tab"><button class="active" data-filter="all">All</button><button data-filter="active">Active</button><button data-filter="done">Done</button></div>
<form id="form"><input id="input" placeholder="Add a new todo..." required autofocus><button type="submit">Add</button></form>
<div id="list"></div>
<script>
let todos=[],filter="all",api=window.location.pathname.replace(/\/?$/,"/")+"api/todos";
async function load(){const r=await fetch(api);todos=await r.json();render()}
async function add(title){const r=await fetch(api,{method:"POST",headers:{"Content-Type":"application/json"},body:JSON.stringify({title})});const t=await r.json();todos.push(t);render()}
async function toggle(id){const t=todos.find(x=>x.id===id);if(!t)return;t.done=t.done?0:1;await fetch(api+"/"+id,{method:"PUT",headers:{"Content-Type":"application/json"},body:JSON.stringify({done:t.done})});render()}
async function remove(id){todos=todos.filter(x=>x.id!==id);await fetch(api+"/"+id,{method:"DELETE"});render()}
function render(){const f=todos.filter(t=>filter==="all"?true:filter==="active"?!t.done:t.done);
document.querySelector("#list").innerHTML=f.length?f.map(t=>'<div class="todo'+(t.done?" done":"")+'" onclick="toggle('+t.id+')"><span class="title">'+esc(t.title)+'</span><span class="meta">#'+t.id+'</span><button onclick="event.stopPropagation();remove('+t.id+')">x</button></div>').join(""):'<div class="empty">No todos yet</div>'}
function esc(s){const d=document.createElement("div");d.textContent=s;return d.innerHTML}
document.querySelector("#form").addEventListener("submit",async e=>{e.preventDefault();const i=document.querySelector("#input");const v=i.value.trim();if(v){await add(v);i.value="";i.focus()}});
document.querySelectorAll(".tab button").forEach(b=>b.addEventListener("click",()=>{document.querySelectorAll(".tab button").forEach(x=>x.classList.remove("active"));b.classList.add("active");filter=b.dataset.filter;render()}));
load();
</script>
</body>
</html>"##;

} // verus!
