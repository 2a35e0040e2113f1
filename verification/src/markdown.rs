//! Markdown rendering with TeX math kept intact.
//!
//! Math spans (`$$...$$` for display math, `$...$` for inline math) are cut out
//! of the text and replaced by NUL-delimited placeholders before the CommonMark
//! renderer sees it, then put back, wrapped for KaTeX, into the produced HTML.
use vstd::prelude::*;
use crate::text::{
    chars_of, contains, contains_in, find, find_char, find_char_in, find_in, has_char, lemma_find,
    lemma_find_char, string_of,
};
use crate::num::{decimal, u128_to_string};

verus! {

broadcast use vstd::string::group_string_axioms;

// ───────────────────────── specifications ─────────────────────────

/// The display-math delimiter `$$`.
pub open spec fn dollars() -> Seq<char> {
    seq!['$', '$']
}

/// The placeholder for the `n`-th math span: NUL, `M`, `n` in decimal, the kind
/// letter (`D` for display, `I` for inline), NUL.
pub open spec fn placeholder(n: nat, kind: char) -> Seq<char> {
    seq!['\0', 'M'] + decimal(n) + seq![kind, '\0']
}

/// First pass: every `$$...$$` span, scanning left to right with the shortest
/// content, is replaced by a placeholder; numbering starts at `n`.
/// Gives the new text and the (placeholder, span as written) pairs in order.
pub open spec fn display_pass(s: Seq<char>, n: nat) -> (Seq<char>, Seq<(Seq<char>, Seq<char>)>)
    decreases s.len(),
{
    match find(s, dollars()) {
        None => (s, Seq::empty()),
        Some(a) => {
            let rest = s.skip(a + 2);
            match find(rest, dollars()) {
                None => (s, Seq::empty()),
                Some(b) => {
                    proof {
                        lemma_find(s, dollars());
                        lemma_find(rest, dollars());
                    }
                    let ph = placeholder(n, 'D');
                    let tail = display_pass(rest.skip(b + 2), n + 1);
                    (
                        s.take(a) + ph + tail.0,
                        seq![(ph, dollars() + rest.take(b) + dollars())] + tail.1,
                    )
                },
            }
        },
    }
}

/// Whether the text after a `$` opens an inline span ending at its next `$`:
/// at least one character before that `$`, and no line break.
pub open spec fn inline_end(t: Seq<char>) -> Option<int> {
    match find_char(t, '$') {
        Some(k) => if k > 0 && !has_char(t.take(k), '\n') {
            Some(k)
        } else {
            None
        },
        None => None,
    }
}

/// Second pass: every `$...$` span (no `$` or line break inside, not empty),
/// scanning left to right, is replaced by a placeholder; numbering starts at `n`.
/// The recorded span is the content without its dollars.
pub open spec fn inline_pass(s: Seq<char>, n: nat) -> (Seq<char>, Seq<(Seq<char>, Seq<char>)>)
    decreases s.len(),
{
    match find_char(s, '$') {
        None => (s, Seq::empty()),
        Some(p) => {
            proof {
                lemma_find_char(s, '$');
            }
            let t = s.skip(p + 1);
            match inline_end(t) {
                Some(k) => {
                    proof {
                        lemma_find_char(t, '$');
                    }
                    let ph = placeholder(n, 'I');
                    let tail = inline_pass(t.skip(k + 1), n + 1);
                    (s.take(p) + ph + tail.0, seq![(ph, t.take(k))] + tail.1)
                },
                None => {
                    let tail = inline_pass(t, n);
                    (s.take(p + 1) + tail.0, tail.1)
                },
            }
        },
    }
}

/// Both passes: display math first, inline math numbered after it.
pub open spec fn extract_math_spec(text: Seq<char>) -> (Seq<char>, Seq<(Seq<char>, Seq<char>)>) {
    let d = display_pass(text, 0);
    let i = inline_pass(d.0, d.1.len());
    (i.0, d.1 + i.1)
}

/// `str::replace` with a non-empty pattern: every occurrence, left to right,
/// without overlap.
pub open spec fn replace_all(s: Seq<char>, p: Seq<char>, r: Seq<char>) -> Seq<char>
    decreases s.len(),
{
    if p.len() == 0 {
        s
    } else {
        match find(s, p) {
            None => s,
            Some(i) => {
                proof {
                    lemma_find(s, p);
                }
                s.take(i) + r + replace_all(s.skip(i + p.len()), p, r)
            },
        }
    }
}

/// The HTML that takes the place of a math span: display math (the span still
/// holds `$$`) loses its dollars and goes into a `div`, inline math into a `span`.
pub open spec fn math_markup(content: Seq<char>) -> Seq<char> {
    if contains(content, dollars()) {
        "<div class=\"math-display\">\\["@ + replace_all(content, dollars(), Seq::empty())
            + " \\]</div>"@
    } else {
        "<span class=\"math-inline\">\\("@ + content + "\\)</span>"@
    }
}

/// Puts each math span back in place of its placeholder, in order.
pub open spec fn restore_math(html: Seq<char>, blocks: Seq<(Seq<char>, Seq<char>)>) -> Seq<char>
    decreases blocks.len(),
{
    if blocks.len() == 0 {
        html
    } else {
        restore_math(replace_all(html, blocks[0].0, math_markup(blocks[0].1)), blocks.drop_first())
    }
}

/// What the CommonMark renderer makes of a text: a function of the text alone.
pub uninterp spec fn commonmark_html(text: Seq<char>) -> Seq<char>;

/// The whole rendering.
pub open spec fn render_markdown_spec(text: Seq<char>) -> Seq<char> {
    let e = extract_math_spec(text);
    restore_math(commonmark_html(e.0), e.1)
}

pub open spec fn blocks_view(b: Seq<(String, String)>) -> Seq<(Seq<char>, Seq<char>)> {
    b.map_values(|x: (String, String)| (x.0@, x.1@))
}


// ───────────────────────── laws ─────────────────────────

/// A text with no `$` at all has no math: the renderer gets it unchanged and
/// its output is the result.
pub proof fn lemma_math_free_text_renders_as_commonmark(text: Seq<char>)
    requires
        !has_char(text, '$'),
    ensures
        extract_math_spec(text) == (text, Seq::<(Seq<char>, Seq<char>)>::empty()),
        render_markdown_spec(text) == commonmark_html(text),
{
    lemma_find(text, dollars());
    if let Some(k) = find(text, dollars()) {
        assert(text.subrange(k, k + 2)[0] == '$');
        assert(text[k] == '$');
    }
    lemma_find_char(text, '$');
    if let Some(k) = find_char(text, '$') {
        assert(text[k] == '$');
    }
    assert(display_pass(text, 0) == (text, Seq::<(Seq<char>, Seq<char>)>::empty()));
    assert(inline_pass(text, 0) == (text, Seq::<(Seq<char>, Seq<char>)>::empty()));
    assert(Seq::<(Seq<char>, Seq<char>)>::empty() + Seq::<(Seq<char>, Seq<char>)>::empty() =~= Seq::<
        (Seq<char>, Seq<char>),
    >::empty());
}

// ───────────────────────── executable code ─────────────────────────

/// Renders CommonMark to HTML with `pulldown_cmark` (`Parser::new` fed to
/// `html::push_html` on an empty string). The claim: the output is a function of
/// the text alone, named `commonmark_html`; nothing more is said of it.
#[verifier::external_body]
fn commonmark(text: &str) -> (html: String)
    ensures
        html@ == commonmark_html(text@),
{
    let mut html = String::new();
    pulldown_cmark::html::push_html(&mut html, pulldown_cmark::Parser::new(text));
    html
}

/// Appends `v[lo..hi]` to `out`.
fn push_range(out: &mut Vec<char>, v: &Vec<char>, lo: usize, hi: usize)
    requires
        lo <= hi <= v.len(),
    ensures
        final(out)@ == old(out)@ + v@.subrange(lo as int, hi as int),
{
    let ghost start = out@;
    let mut i = lo;
    while i < hi
        invariant
            lo <= i <= hi <= v.len(),
            out@ == start + v@.subrange(lo as int, i as int),
        decreases hi - i,
    {
        out.push(v[i]);
        i = i + 1;
        assert(out@ =~= start + v@.subrange(lo as int, i as int));
    }
}

/// Appends all of `v` to `out`.
fn push_all(out: &mut Vec<char>, v: &Vec<char>)
    ensures
        final(out)@ == old(out)@ + v@,
{
    push_range(out, v, 0, v.len());
    assert(v@.subrange(0, v.len() as int) =~= v@);
}

/// The characters of `placeholder(n, kind)`.
fn placeholder_chars(n: u128, kind: char) -> (v: Vec<char>)
    ensures
        v@ == placeholder(n as nat, kind),
{
    let mut v: Vec<char> = Vec::new();
    v.push('\0');
    v.push('M');
    let digits = u128_to_string(n);
    let dv = chars_of(digits.as_str());
    push_all(&mut v, &dv);
    v.push(kind);
    v.push('\0');
    assert(v@ =~= placeholder(n as nat, kind));
    v
}

proof fn lemma_display_pass_empty(s: Seq<char>, n: nat)
    requires
        s.len() == 0,
    ensures
        display_pass(s, n) == (s, Seq::<(Seq<char>, Seq<char>)>::empty()),
{
    lemma_find(s, dollars());
}

/// The display-math pass over `v`, numbering from zero.
fn display_pass_exec(v: &Vec<char>) -> (r: (Vec<char>, Vec<(String, String)>))
    ensures
        r.0@ == display_pass(v@, 0).0,
        blocks_view(r.1@) == display_pass(v@, 0).1,
        r.1.len() <= v.len(),
{
    let dd: Vec<char> = vec!['$', '$'];
    assert(dd@ =~= dollars());
    let mut out: Vec<char> = Vec::new();
    let mut blocks: Vec<(String, String)> = Vec::new();
    let mut pos: usize = 0;
    assert(v@.skip(0) =~= v@);
    assert(blocks_view(blocks@) =~= Seq::<(Seq<char>, Seq<char>)>::empty());
    assert(out@ + display_pass(v@, 0).0 =~= display_pass(v@, 0).0);
    assert(blocks_view(blocks@) + display_pass(v@, 0).1 =~= display_pass(v@, 0).1);
    while pos < v.len()
        invariant
            pos <= v.len(),
            dd@ == dollars(),
            blocks.len() <= pos,
            display_pass(v@, 0).0 == out@ + display_pass(v@.skip(pos as int), blocks.len() as nat).0,
            display_pass(v@, 0).1 == blocks_view(blocks@) + display_pass(
                v@.skip(pos as int),
                blocks.len() as nat,
            ).1,
        decreases v.len() - pos,
    {
        let ghost s = v@.skip(pos as int);
        let ghost n = blocks.len() as nat;
        let ghost out0 = out@;
        let ghost bl0 = blocks_view(blocks@);
        assert(s =~= v@.subrange(pos as int, v.len() as int));
        let mut matched = false;
        if let Some(a) = find_in(v, pos, v.len(), &dd) {
            let start = pos + a + 2;
            assert(s.skip(a + 2) =~= v@.subrange(start as int, v.len() as int));
            if let Some(b) = find_in(v, start, v.len(), &dd) {
                let ph = placeholder_chars(blocks.len() as u128, 'D');
                push_range(&mut out, v, pos, pos + a);
                push_all(&mut out, &ph);
                let mut span: Vec<char> = vec!['$', '$'];
                push_range(&mut span, v, start, start + b);
                span.push('$');
                span.push('$');
                let ghost rest = s.skip(a + 2);
                assert(s.take(a as int) =~= v@.subrange(pos as int, pos + a));
                assert(rest.take(b as int) =~= v@.subrange(start as int, start + b));
                assert(span@ =~= dollars() + rest.take(b as int) + dollars());
                let phs = string_of(&ph);
                let sps = string_of(&span);
                blocks.push((phs, sps));
                pos = start + b + 2;
                matched = true;
                proof {
                    assert(rest.skip(b + 2) =~= v@.skip(pos as int));
                    let tail = display_pass(v@.skip(pos as int), n + 1);
                    assert(display_pass(s, n).0 == s.take(a as int) + placeholder(n, 'D') + tail.0);
                    assert(out@ =~= out0 + s.take(a as int) + placeholder(n, 'D'));
                    assert(out0 + display_pass(s, n).0 =~= out@ + tail.0);
                    assert(blocks_view(blocks@) =~= bl0.push((placeholder(n, 'D'), span@)));
                    assert(bl0 + display_pass(s, n).1 =~= blocks_view(blocks@) + tail.1);
                }
            }
        }
        if !matched {
            proof {
                assert(display_pass(s, n) == (s, Seq::<(Seq<char>, Seq<char>)>::empty()));
            }
            push_range(&mut out, v, pos, v.len());
            pos = v.len();
            proof {
                lemma_display_pass_empty(v@.skip(pos as int), n);
                assert(out0 + display_pass(s, n).0 =~= out@ + v@.skip(pos as int));
                assert(bl0 + display_pass(s, n).1 =~= bl0 + Seq::<(Seq<char>, Seq<char>)>::empty());
            }
        }
    }
    proof {
        lemma_display_pass_empty(v@.skip(pos as int), blocks.len() as nat);
        assert(out@ + v@.skip(pos as int) =~= out@);
        assert(blocks_view(blocks@) + Seq::<(Seq<char>, Seq<char>)>::empty() =~= blocks_view(blocks@));
    }
    (out, blocks)
}


proof fn lemma_inline_pass_empty(s: Seq<char>, n: nat)
    requires
        s.len() == 0,
    ensures
        inline_pass(s, n) == (s, Seq::<(Seq<char>, Seq<char>)>::empty()),
{
    lemma_find_char(s, '$');
}

/// `find_char` is `None` exactly when the character does not occur.
proof fn lemma_find_char_has(s: Seq<char>, c: char)
    ensures
        (find_char(s, c) is None) == !has_char(s, c),
{
    lemma_find_char(s, c);
    if let Some(i) = find_char(s, c) {
        assert(s[i] == c);
    }
}

/// The inline-math pass over `v`, numbering from `n0`.
fn inline_pass_exec(v: &Vec<char>, n0: usize) -> (r: (Vec<char>, Vec<(String, String)>))
    ensures
        r.0@ == inline_pass(v@, n0 as nat).0,
        blocks_view(r.1@) == inline_pass(v@, n0 as nat).1,
{
    let mut out: Vec<char> = Vec::new();
    let mut blocks: Vec<(String, String)> = Vec::new();
    let mut pos: usize = 0;
    let mut n: u128 = n0 as u128;
    assert(v@.skip(0) =~= v@);
    assert(out@ + inline_pass(v@, n0 as nat).0 =~= inline_pass(v@, n0 as nat).0);
    assert(blocks_view(blocks@) + inline_pass(v@, n0 as nat).1 =~= inline_pass(v@, n0 as nat).1);
    while pos < v.len()
        invariant
            pos <= v.len(),
            blocks.len() <= pos,
            n == n0 + blocks.len(),
            inline_pass(v@, n0 as nat).0 == out@ + inline_pass(v@.skip(pos as int), n as nat).0,
            inline_pass(v@, n0 as nat).1 == blocks_view(blocks@) + inline_pass(
                v@.skip(pos as int),
                n as nat,
            ).1,
        decreases v.len() - pos,
    {
        let ghost s = v@.skip(pos as int);
        let ghost out0 = out@;
        let ghost bl0 = blocks_view(blocks@);
        let ghost n_old = n as nat;
        assert(s =~= v@.subrange(pos as int, v.len() as int));
        match find_char_in(v, pos, v.len(), '$') {
            None => {
                proof {
                    assert(inline_pass(s, n_old) == (s, Seq::<(Seq<char>, Seq<char>)>::empty()));
                }
                push_range(&mut out, v, pos, v.len());
                pos = v.len();
                proof {
                    lemma_inline_pass_empty(v@.skip(pos as int), n_old);
                    assert(out0 + inline_pass(s, n_old).0 =~= out@ + v@.skip(pos as int));
                    assert(bl0 + inline_pass(s, n_old).1 =~= bl0 + Seq::<(Seq<char>, Seq<char>)>::empty());
                }
            },
            Some(p) => {
                let t_start = pos + p + 1;
                let ghost t = s.skip(p + 1);
                assert(t =~= v@.subrange(t_start as int, v.len() as int));
                let end: Option<usize> = match find_char_in(v, t_start, v.len(), '$') {
                    Some(k) => {
                        proof {
                            assert(t.take(k as int) =~= v@.subrange(t_start as int, t_start + k));
                            lemma_find_char_has(t.take(k as int), '\n');
                        }
                        if k > 0 && find_char_in(v, t_start, t_start + k, '\n').is_none() {
                            Some(k)
                        } else {
                            None
                        }
                    },
                    None => None,
                };
                assert(end == match inline_end(t) { Some(k) => Some(k as usize), None => None::<usize> });
                match end {
                    Some(k) => {
                        let ph = placeholder_chars(n, 'I');
                        push_range(&mut out, v, pos, pos + p);
                        push_all(&mut out, &ph);
                        let mut content: Vec<char> = Vec::new();
                        push_range(&mut content, v, t_start, t_start + k);
                        assert(s.take(p as int) =~= v@.subrange(pos as int, pos + p));
                        assert(t.take(k as int) =~= v@.subrange(t_start as int, t_start + k));
                        let phs = string_of(&ph);
                        let cs = string_of(&content);
                        blocks.push((phs, cs));
                        pos = t_start + k + 1;
                        n = n + 1;
                        proof {
                            assert(t.skip(k + 1) =~= v@.skip(pos as int));
                            let tail = inline_pass(v@.skip(pos as int), n as nat);
                            assert(inline_pass(s, n_old).0 == s.take(p as int) + placeholder(n_old, 'I') + tail.0);
                            assert(out@ =~= out0 + s.take(p as int) + placeholder(n_old, 'I'));
                            assert(out0 + inline_pass(s, n_old).0 =~= out@ + tail.0);
                            assert(blocks_view(blocks@) =~= bl0.push((placeholder(n_old, 'I'), t.take(k as int))));
                            assert(bl0 + inline_pass(s, n_old).1 =~= blocks_view(blocks@) + tail.1);
                        }
                    },
                    None => {
                        push_range(&mut out, v, pos, t_start);
                        assert(s.take(p + 1) =~= v@.subrange(pos as int, t_start as int));
                        pos = t_start;
                        proof {
                            assert(t =~= v@.skip(pos as int));
                            assert(out0 + inline_pass(s, n_old).0 =~= out@ + inline_pass(t, n_old).0);
                        }
                    },
                }
            },
        }
    }
    proof {
        lemma_inline_pass_empty(v@.skip(pos as int), n as nat);
        assert(out@ + v@.skip(pos as int) =~= out@);
        assert(blocks_view(blocks@) + Seq::<(Seq<char>, Seq<char>)>::empty() =~= blocks_view(blocks@));
    }
    (out, blocks)
}

/// Takes the math spans out of a Markdown text: `$$...$$` first, then `$...$`,
/// each replaced by a numbered placeholder. Gives the text for the renderer and
/// the (placeholder, span) pairs in the order they were numbered.
pub fn extract_math(text: &str) -> (r: (String, Vec<(String, String)>))
    ensures
        r.0@ == extract_math_spec(text@).0,
        blocks_view(r.1@) == extract_math_spec(text@).1,
{
    let v = chars_of(text);
    let (d, mut blocks) = display_pass_exec(&v);
    let (out, mut inline_blocks) = inline_pass_exec(&d, blocks.len());
    let ghost db = blocks_view(blocks@);
    let ghost ib = blocks_view(inline_blocks@);
    blocks.append(&mut inline_blocks);
    assert(blocks_view(blocks@) =~= db + ib);
    (string_of(&out), blocks)
}

proof fn lemma_replace_all_empty(s: Seq<char>, p: Seq<char>, r: Seq<char>)
    requires
        s.len() == 0,
    ensures
        replace_all(s, p, r) == s,
{
    lemma_find(s, p);
}

/// Every occurrence of `p` in `s`, left to right and without overlap, replaced
/// by `r` (what `str::replace` does; an empty `p` leaves `s` as it is).
pub fn replace_str(s: &str, p: &str, r: &str) -> (out: String)
    ensures
        out@ == replace_all(s@, p@, r@),
{
    let v = chars_of(s);
    let pv = chars_of(p);
    let rv = chars_of(r);
    if pv.len() == 0 {
        return string_of(&v);
    }
    let mut out: Vec<char> = Vec::new();
    let mut pos: usize = 0;
    assert(v@.skip(0) =~= v@);
    assert(out@ + replace_all(v@, p@, r@) =~= replace_all(v@, p@, r@));
    while pos < v.len()
        invariant
            pos <= v.len(),
            pv@ == p@,
            rv@ == r@,
            pv.len() > 0,
            replace_all(v@, p@, r@) == out@ + replace_all(v@.skip(pos as int), p@, r@),
        decreases v.len() - pos,
    {
        let ghost s0 = v@.skip(pos as int);
        let ghost out0 = out@;
        assert(s0 =~= v@.subrange(pos as int, v.len() as int));
        match find_in(&v, pos, v.len(), &pv) {
            None => {
                push_range(&mut out, &v, pos, v.len());
                pos = v.len();
                proof {
                    lemma_replace_all_empty(v@.skip(pos as int), p@, r@);
                    assert(out0 + replace_all(s0, p@, r@) =~= out@ + v@.skip(pos as int));
                }
            },
            Some(i) => {
                push_range(&mut out, &v, pos, pos + i);
                push_all(&mut out, &rv);
                assert(s0.take(i as int) =~= v@.subrange(pos as int, pos + i));
                pos = pos + i + pv.len();
                proof {
                    assert(s0.skip(i + p@.len()) =~= v@.skip(pos as int));
                    assert(out0 + replace_all(s0, p@, r@) =~= out@ + replace_all(v@.skip(pos as int), p@, r@));
                }
            },
        }
    }
    proof {
        lemma_replace_all_empty(v@.skip(pos as int), p@, r@);
        assert(out@ + v@.skip(pos as int) =~= out@);
    }
    string_of(&out)
}

/// The HTML for one math span (see `math_markup`).
pub fn math_markup_html(content: &str) -> (m: String)
    ensures
        m@ == math_markup(content@),
{
    let v = chars_of(content);
    let dd: Vec<char> = vec!['$', '$'];
    assert(dd@ =~= dollars());
    assert(v@.subrange(0, v.len() as int) =~= v@);
    if contains_in(&v, 0, v.len(), &dd) {
        proof {
            reveal_strlit("$$");
            reveal_strlit("");
            assert("$$"@ =~= dollars());
            assert(""@ =~= Seq::<char>::empty());
        }
        let inner = replace_str(content, "$$", "");
        let mut m = String::from_str("<div class=\"math-display\">\\[");
        m.append(inner.as_str());
        m.append(" \\]</div>");
        m
    } else {
        let mut m = String::from_str("<span class=\"math-inline\">\\(");
        m.append(content);
        m.append("\\)</span>");
        m
    }
}

/// Puts the math spans taken out by `extract_math` back into the rendered HTML,
/// each placeholder replaced by the span's KaTeX-ready markup, in order.
pub fn restore_math_html(html: String, blocks: &Vec<(String, String)>) -> (out: String)
    ensures
        out@ == restore_math(html@, blocks_view(blocks@)),
{
    let mut html = html;
    let ghost whole = restore_math(html@, blocks_view(blocks@));
    let mut i: usize = 0;
    assert(blocks_view(blocks@).skip(0) =~= blocks_view(blocks@));
    while i < blocks.len()
        invariant
            i <= blocks.len(),
            whole == restore_math(html@, blocks_view(blocks@).skip(i as int)),
        decreases blocks.len() - i,
    {
        let markup = math_markup_html(blocks[i].1.as_str());
        let ghost bv = blocks_view(blocks@);
        assert(bv.skip(i as int).drop_first() =~= bv.skip(i + 1));
        html = replace_str(html.as_str(), blocks[i].0.as_str(), markup.as_str());
        i = i + 1;
    }
    assert(blocks_view(blocks@).skip(i as int) =~= Seq::<(Seq<char>, Seq<char>)>::empty());
    html
}

/// Renders Markdown to HTML, keeping TeX math out of the renderer's way and
/// putting it back as KaTeX-ready markup.
pub fn render_markdown(text: &str) -> (html: String)
    ensures
        html@ == render_markdown_spec(text@),
{
    let (clean, blocks) = extract_math(text);
    restore_math_html(commonmark(clean.as_str()), &blocks)
}

} // verus!
