//! Reading the answer of `git http-backend` (CGI): status, headers and body.
use vstd::prelude::*;
use vstd::utf8::{decode_utf8, encode_utf8, valid_utf8};
use crate::num::{parse_u16, parse_u16_spec};
use crate::text::{
    chars_of, find, find_char, find_char_in, find_in, is_whitespace, is_ws, lemma_find,
    lemma_find_char, occurs_at, starts_with, starts_with_in, string_of_range, trim, trim_bounds, utf8_len,
    trim_start,
};

verus! {

broadcast use vstd::string::group_string_axioms;

/// What `String::from_utf8_lossy` gives: invalid sequences replaced by U+FFFD.
pub uninterp spec fn utf8_lossy(b: Seq<u8>) -> Seq<char>;

/// `String::from_utf8_lossy`. The replacement of invalid sequences is named by
/// `utf8_lossy`; only that valid UTF-8 is decoded unchanged is stated.
#[verifier::external_body]
fn lossy_string(bytes: &[u8]) -> (s: String)
    ensures
        s@ == utf8_lossy(bytes@),
        valid_utf8(bytes@) ==> s@ == decode_utf8(bytes@),
{
    String::from_utf8_lossy(bytes).into_owned()
}

/// `str::split` with a non-empty string separator.
pub open spec fn split_str(s: Seq<char>, sep: Seq<char>) -> Seq<Seq<char>>
    decreases s.len(),
{
    if sep.len() == 0 {
        seq![s]
    } else {
        match find(s, sep) {
            Some(i) => {
                proof {
                    lemma_find(s, sep);
                }
                seq![s.take(i)] + split_str(s.skip(i + sep.len()), sep)
            },
            None => seq![s],
        }
    }
}

/// Length of the leading run of non-whitespace characters.
pub open spec fn word_end(t: Seq<char>) -> int
    decreases t.len(),
{
    if t.len() == 0 || is_ws(t[0]) {
        0
    } else {
        1 + word_end(t.drop_first())
    }
}

/// `s.split_whitespace().next()`
pub open spec fn first_word(s: Seq<char>) -> Option<Seq<char>> {
    let t = trim_start(s);
    if t.len() == 0 {
        None
    } else {
        Some(t.take(word_end(t)))
    }
}

/// The status after reading one header line: a `Status: NNN ...` line sets it
/// (to 200 when NNN is outside 100..=999); other lines leave it.
pub open spec fn line_status(line: Seq<char>, st: u16) -> u16 {
    if starts_with(line, "Status: "@) {
        match first_word(line.skip("Status: "@.len() as int)) {
            Some(w) => match parse_u16_spec(w) {
                Some(c) => if 100 <= c <= 999 {
                    c as u16
                } else {
                    200
                },
                None => st,
            },
            None => st,
        }
    } else {
        st
    }
}

/// A header line `key: value` (trimmed on both sides of the first colon).
pub open spec fn header_of(line: Seq<char>) -> Option<(Seq<char>, Seq<char>)> {
    if line.len() == 0 || starts_with(line, "Status: "@) {
        None
    } else {
        match find_char(line, ':') {
            Some(i) => Some((trim(line.take(i)), trim(line.skip(i + 1)))),
            None => None,
        }
    }
}

/// The status after all header lines, starting from 200 OK.
pub open spec fn cgi_status(lines: Seq<Seq<char>>) -> u16
    decreases lines.len(),
{
    if lines.len() == 0 {
        200
    } else {
        line_status(lines.last(), cgi_status(lines.drop_last()))
    }
}

/// The headers, in the order the lines give them.
pub open spec fn cgi_headers(lines: Seq<Seq<char>>) -> Seq<(Seq<char>, Seq<char>)>
    decreases lines.len(),
{
    if lines.len() == 0 {
        Seq::empty()
    } else {
        let h = cgi_headers(lines.drop_last());
        match header_of(lines.last()) {
            Some(p) => h.push(p),
            None => h,
        }
    }
}

/// Where the blank line that ends the headers starts, counted in characters of
/// the decoded output `text`.
pub open spec fn cgi_header_end(text: Seq<char>) -> Option<int> {
    find(text, "\r\n\r\n"@)
}

/// The header lines of the decoded output (none when there is no blank line).
pub open spec fn cgi_lines(text: Seq<char>) -> Seq<Seq<char>> {
    match cgi_header_end(text) {
        Some(k) => split_str(text.take(k), "\r\n"@),
        None => Seq::empty(),
    }
}

/// Byte offset of the body: the UTF-8 length of the decoded header section plus
/// the four bytes of the blank line.
pub open spec fn cgi_body_start(text: Seq<char>) -> int {
    match cgi_header_end(text) {
        Some(k) => encode_utf8(text.take(k)).len() as int + 4,
        None => 0,
    }
}

/// The parts of a CGI answer.
#[derive(Debug)]
pub struct CgiResponse {
    pub status: u16,
    pub headers: Vec<(String, String)>,
    pub body: Vec<u8>,
}

pub open spec fn headers_view(h: Seq<(String, String)>) -> Seq<(Seq<char>, Seq<char>)> {
    h.map_values(|p: (String, String)| (p.0@, p.1@))
}

/// `out[from..]` as a new vector.
fn bytes_from(out: &Vec<u8>, from: usize) -> (b: Vec<u8>)
    requires
        from <= out.len(),
    ensures
        b@ == out@.skip(from as int),
{
    let mut b: Vec<u8> = Vec::new();
    let mut i = from;
    while i < out.len()
        invariant
            from <= i <= out.len(),
            b@ == out@.subrange(from as int, i as int),
        decreases out.len() - i,
    {
        b.push(out[i]);
        i = i + 1;
        assert(b@ =~= out@.subrange(from as int, i as int));
    }
    assert(out@.subrange(from as int, out@.len() as int) =~= out@.skip(from as int));
    b
}

/// Bounds of the first whitespace-separated word of `v[lo..hi]`.
pub(crate) fn first_word_bounds(v: &Vec<char>, lo: usize, hi: usize) -> (r: Option<(usize, usize)>)
    requires
        lo <= hi <= v.len(),
    ensures
        match r {
            Some((a, b)) => lo <= a <= b <= hi && first_word(v@.subrange(lo as int, hi as int))
                == Some(v@.subrange(a as int, b as int)) && trim_start(v@.subrange(lo as int, hi as int))
                == v@.subrange(a as int, hi as int),
            None => first_word(v@.subrange(lo as int, hi as int)) == None::<Seq<char>>,
        },
{
    let ghost s = v@.subrange(lo as int, hi as int);
    let mut a = lo;
    while a < hi && is_whitespace(v[a])
        invariant
            lo <= a <= hi <= v.len(),
            s == v@.subrange(lo as int, hi as int),
            trim_start(s) == trim_start(v@.subrange(a as int, hi as int)),
        decreases hi - a,
    {
        proof {
            let t = v@.subrange(a as int, hi as int);
            assert(t[0] == v@[a as int]);
            assert(t.drop_first() =~= v@.subrange(a + 1, hi as int));
        }
        a = a + 1;
    }
    let ghost t = v@.subrange(a as int, hi as int);
    proof {
        if t.len() > 0 {
            assert(t[0] == v@[a as int]);
        }
        assert(trim_start(t) == t);
    }
    if a == hi {
        return None;
    }
    let mut b = a;
    while b < hi && !is_whitespace(v[b])
        invariant
            a <= b <= hi <= v.len(),
            t == v@.subrange(a as int, hi as int),
            word_end(t) == (b - a) + word_end(v@.subrange(b as int, hi as int)),
        decreases hi - b,
    {
        proof {
            let u = v@.subrange(b as int, hi as int);
            assert(u[0] == v@[b as int]);
            assert(u.drop_first() =~= v@.subrange(b + 1, hi as int));
        }
        b = b + 1;
    }
    proof {
        let u = v@.subrange(b as int, hi as int);
        if u.len() > 0 {
            assert(u[0] == v@[b as int]);
        }
        assert(word_end(u) == 0);
        assert(t.take(b - a) =~= v@.subrange(a as int, b as int));
    }
    Some((a, b))
}

/// The status after the line `v[a..b]`.
fn status_of_line(v: &Vec<char>, a: usize, b: usize, st: u16) -> (r: u16)
    requires
        a <= b <= v.len(),
    ensures
        r == line_status(v@.subrange(a as int, b as int), st),
{
    let ghost line = v@.subrange(a as int, b as int);
    let prefix = chars_of("Status: ");
    proof {
        reveal_strlit("Status: ");
    }
    if !starts_with_in(v, a, b, &prefix) {
        return st;
    }
    assert(line.skip(8) =~= v@.subrange(a + 8, b as int));
    match first_word_bounds(v, a + 8, b) {
        None => st,
        Some((w0, w1)) => match parse_u16(v, w0, w1) {
            Some(code) => if 100 <= code && code <= 999 {
                code
            } else {
                200
            },
            None => st,
        },
    }
}

/// The header of the line `v[a..b]`, if it is one.
fn header_of_line(v: &Vec<char>, a: usize, b: usize) -> (r: Option<(String, String)>)
    requires
        a <= b <= v.len(),
    ensures
        match r {
            Some(p) => header_of(v@.subrange(a as int, b as int)) == Some((p.0@, p.1@)),
            None => header_of(v@.subrange(a as int, b as int)) == None::<(Seq<char>, Seq<char>)>,
        },
{
    let ghost line = v@.subrange(a as int, b as int);
    if a == b {
        return None;
    }
    let prefix = chars_of("Status: ");
    if starts_with_in(v, a, b, &prefix) {
        return None;
    }
    match find_char_in(v, a, b, ':') {
        None => None,
        Some(i) => {
            proof {
                lemma_find_char(line, ':');
                assert(line.take(i as int) =~= v@.subrange(a as int, a + i));
                assert(line.skip(i + 1) =~= v@.subrange(a + i + 1, b as int));
            }
            let (k0, k1) = trim_bounds(v, a, a + i);
            let (v0, v1) = trim_bounds(v, a + i + 1, b);
            Some((string_of_range(v, k0, k1), string_of_range(v, v0, v1)))
        },
    }
}

proof fn lemma_split_step(s: Seq<char>, sep: Seq<char>, i: int)
    requires
        sep.len() > 0,
        find(s, sep) == Some(i),
    ensures
        split_str(s, sep) == seq![s.take(i)] + split_str(s.skip(i + sep.len()), sep),
{
}

/// Splits the output of `git http-backend`, given as its bytes `out` and their
/// decoded text, into status, headers and body, as the server forwards them.
pub fn parse_cgi_text(text: &str, out: &Vec<u8>) -> (r: CgiResponse)
    requires
        cgi_body_start(text@) <= out@.len(),
    ensures
        r.status == cgi_status(cgi_lines(text@)),
        headers_view(r.headers@) == cgi_headers(cgi_lines(text@)),
        r.body@ == out@.skip(cgi_body_start(text@)),
{
    let v = chars_of(text);
    let blank = chars_of("\r\n\r\n");
    assert(v@.subrange(0, v@.len() as int) =~= v@);
    match find_in(&v, 0, v.len(), &blank) {
        None => {
            let body = bytes_from(out, 0);
            assert(out@.skip(0) =~= out@);
            let r = CgiResponse { status: 200, headers: Vec::new(), body };
            assert(headers_view(r.headers@) =~= Seq::<(Seq<char>, Seq<char>)>::empty());
            r
        },
        Some(k) => {
            let head_len = utf8_len(&v, 0, k);
            assert(v@.subrange(0, k as int) =~= text@.take(k as int));
            assert(cgi_header_end(text@) == Some(k as int));
            assert(head_len == encode_utf8(text@.take(k as int)).len());
            assert(cgi_body_start(text@) == head_len + 4);
            assert(head_len + 4 <= out.len());
            let body_start = (head_len + 4) as usize;
            assert(body_start == cgi_body_start(text@));
            let body = bytes_from(out, body_start);
            let crlf = chars_of("\r\n");
            proof {
                reveal_strlit("\r\n");
            }
            let mut status: u16 = 200;
            let mut headers: Vec<(String, String)> = Vec::new();
            let ghost whole = v@.subrange(0, k as int);
            let ghost mut done: Seq<Seq<char>> = Seq::empty();
            let mut pos: usize = 0;
            proof {
                assert(whole =~= text@.take(k as int));
                assert(v@.subrange(0, k as int) =~= whole);
                assert(done + split_str(v@.subrange(pos as int, k as int), crlf@) =~= split_str(
                    whole,
                    crlf@,
                ));
                assert(headers_view(headers@) =~= cgi_headers(done));
            }
            loop
                invariant_except_break
                    pos <= k <= v.len(),
                    crlf@.len() == 2,
                    done + split_str(v@.subrange(pos as int, k as int), crlf@) == split_str(
                        whole,
                        crlf@,
                    ),
                    status == cgi_status(done),
                    headers_view(headers@) == cgi_headers(done),
                ensures
                    done == split_str(whole, crlf@),
                    status == cgi_status(done),
                    headers_view(headers@) == cgi_headers(done),
                decreases k - pos,
            {
                let ghost seg = v@.subrange(pos as int, k as int);
                let (end, next, last) = match find_in(&v, pos, k, &crlf) {
                    Some(i) => {
                        proof {
                            lemma_find(seg, crlf@);
                            lemma_split_step(seg, crlf@, i as int);
                            assert(seg.take(i as int) =~= v@.subrange(pos as int, pos + i));
                            assert(seg.skip(i + 2) =~= v@.subrange(pos + i + 2, k as int));
                        }
                        (pos + i, pos + i + 2, false)
                    },
                    None => {
                        assert(split_str(seg, crlf@) == seq![seg]);
                        (k, k, true)
                    },
                };
                let ghost line = v@.subrange(pos as int, end as int);
                status = status_of_line(&v, pos, end, status);
                match header_of_line(&v, pos, end) {
                    Some(h) => {
                        headers.push(h);
                    },
                    None => {},
                }
                proof {
                    let nd = done.push(line);
                    assert(nd.drop_last() =~= done);
                    assert(nd.last() == line);
                    assert(headers_view(headers@) =~= cgi_headers(nd));
                    if !last {
                        assert(split_str(seg, crlf@) == seq![line] + split_str(
                            v@.subrange(next as int, k as int),
                            crlf@,
                        ));
                        assert(nd + split_str(v@.subrange(next as int, k as int), crlf@) =~= done
                            + split_str(seg, crlf@));
                    } else {
                        assert(line =~= seg);
                        assert(nd =~= done + split_str(seg, crlf@));
                    }
                    done = nd;
                }
                if last {
                    break;
                }
                pos = next;
            }
            CgiResponse { status, headers, body }
        },
    }
}

/// Splits the output of `git http-backend` into status, headers and body, as
/// the server forwards them; `None` when the body offset would fall past the
/// end of the output (possible only when the headers are not valid UTF-8).
pub fn parse_cgi_output(out: &Vec<u8>) -> (r: Option<CgiResponse>)
    ensures
        r is None <==> cgi_body_start(utf8_lossy(out@)) > out@.len(),
        r matches Some(c) ==> c.status == cgi_status(cgi_lines(utf8_lossy(out@))) && headers_view(c.headers@)
            == cgi_headers(cgi_lines(utf8_lossy(out@))) && c.body@ == out@.skip(cgi_body_start(utf8_lossy(out@))),
{
    let text = lossy_string(out.as_slice());
    let v = chars_of(text.as_str());
    let blank = chars_of("\r\n\r\n");
    assert(v@.subrange(0, v@.len() as int) =~= v@);
    match find_in(&v, 0, v.len(), &blank) {
        None => Some(parse_cgi_text(text.as_str(), out)),
        Some(k) => {
            let head_len = utf8_len(&v, 0, k);
            assert(v@.subrange(0, k as int) =~= text@.take(k as int));
            assert(cgi_header_end(text@) == Some(k as int));
            if head_len + 4 <= out.len() as u128 {
                Some(parse_cgi_text(text.as_str(), out))
            } else {
                None
            }
        },
    }
}

} // verus!
