//! Character-level text operations with their meaning stated over `Seq<char>`.
//!
//! The specifications follow the documented behaviour of the corresponding
//! `str` methods (`trim`, `starts_with`, `find`, `lines`, `split`, ...), so
//! the rest of the library can state its contracts in those terms.
use vstd::prelude::*;
use vstd::utf8::{char_is_scalar, encode_scalar, encode_utf8};

verus! {

broadcast use vstd::string::group_string_axioms;

// ───────────────────────── specifications ─────────────────────────

/// Unicode `White_Space`, the set that `char::is_whitespace` and `str::trim` use.
pub open spec fn is_ws(c: char) -> bool {
    let u = c as u32;
    ||| 0x09 <= u <= 0x0D
    ||| u == 0x20
    ||| u == 0x85
    ||| u == 0xA0
    ||| u == 0x1680
    ||| 0x2000 <= u <= 0x200A
    ||| u == 0x2028
    ||| u == 0x2029
    ||| u == 0x202F
    ||| u == 0x205F
    ||| u == 0x3000
}

/// `str::trim_start`.
pub open spec fn trim_start(s: Seq<char>) -> Seq<char>
    decreases s.len(),
{
    if s.len() > 0 && is_ws(s[0]) {
        trim_start(s.drop_first())
    } else {
        s
    }
}

/// `str::trim_end`.
pub open spec fn trim_end(s: Seq<char>) -> Seq<char>
    decreases s.len(),
{
    if s.len() > 0 && is_ws(s.last()) {
        trim_end(s.drop_last())
    } else {
        s
    }
}

/// `str::trim`.
pub open spec fn trim(s: Seq<char>) -> Seq<char> {
    trim_end(trim_start(s))
}

/// `str::trim_start_matches` with a single character.
pub open spec fn trim_start_char(s: Seq<char>, c: char) -> Seq<char>
    decreases s.len(),
{
    if s.len() > 0 && s[0] == c {
        trim_start_char(s.drop_first(), c)
    } else {
        s
    }
}

/// `str::trim_end_matches` with a single character.
pub open spec fn trim_end_char(s: Seq<char>, c: char) -> Seq<char>
    decreases s.len(),
{
    if s.len() > 0 && s.last() == c {
        trim_end_char(s.drop_last(), c)
    } else {
        s
    }
}

/// `str::trim_matches` with a single character.
pub open spec fn trim_char(s: Seq<char>, c: char) -> Seq<char> {
    trim_end_char(trim_start_char(s, c), c)
}

/// `str::starts_with`.
pub open spec fn starts_with(s: Seq<char>, p: Seq<char>) -> bool {
    p.len() <= s.len() && s.take(p.len() as int) == p
}

/// `str::ends_with`.
pub open spec fn ends_with(s: Seq<char>, p: Seq<char>) -> bool {
    p.len() <= s.len() && s.skip(s.len() - p.len()) == p
}

/// `p` occurs in `s` at position `i`.
pub open spec fn occurs_at(s: Seq<char>, p: Seq<char>, i: int) -> bool {
    0 <= i && i + p.len() <= s.len() && s.subrange(i, i + p.len()) == p
}

/// `str::contains` with a string pattern.
pub open spec fn contains(s: Seq<char>, p: Seq<char>) -> bool {
    exists|i: int| occurs_at(s, p, i)
}

/// The first position, from `i` on, where `p` occurs in `s`.
pub open spec fn find_from(s: Seq<char>, p: Seq<char>, i: int) -> Option<int>
    decreases s.len() + 1 - i,
{
    if i < 0 || i + p.len() > s.len() {
        None
    } else if occurs_at(s, p, i) {
        Some(i)
    } else {
        find_from(s, p, i + 1)
    }
}

/// `str::find` with a string pattern: the first position where `p` occurs.
pub open spec fn find(s: Seq<char>, p: Seq<char>) -> Option<int> {
    find_from(s, p, 0)
}

/// `c` occurs in `s`.
pub open spec fn has_char(s: Seq<char>, c: char) -> bool {
    exists|i: int| 0 <= i < s.len() && s[i] == c
}

/// The first position of `c` in `s`, if any (`str::find` with a `char`).
pub open spec fn find_char(s: Seq<char>, c: char) -> Option<int>
    decreases s.len(),
{
    if s.len() == 0 {
        None
    } else if s[0] == c {
        Some(0)
    } else {
        match find_char(s.drop_first(), c) {
            Some(i) => Some(i + 1),
            None => None,
        }
    }
}

/// Drops a trailing `'\r'`, as `str::lines` does before a `'\n'`.
pub open spec fn strip_cr(l: Seq<char>) -> Seq<char> {
    if l.len() > 0 && l.last() == '\r' {
        l.drop_last()
    } else {
        l
    }
}

/// `str::lines`: split at `'\n'`, a `'\r'` just before it dropped, no final empty line.
pub open spec fn lines(s: Seq<char>) -> Seq<Seq<char>>
    decreases s.len(),
{
    if s.len() == 0 {
        seq![]
    } else {
        match find_char(s, '\n') {
            Some(i) => {
                proof {
                    lemma_find_char(s, '\n');
                }
                seq![strip_cr(s.take(i))] + lines(s.skip(i + 1))
            },
            None => seq![s],
        }
    }
}

/// The piece of `s` after the first `sep` and before the next one:
/// `s.split(sep).nth(1)`.
pub open spec fn second_piece(s: Seq<char>, sep: char) -> Option<Seq<char>> {
    match find_char(s, sep) {
        None => None,
        Some(i) => {
            let rest = s.skip(i + 1);
            match find_char(rest, sep) {
                Some(j) => Some(rest.take(j)),
                None => Some(rest),
            }
        }
    }
}

/// `items.join(sep)`.
pub open spec fn join_spec(items: Seq<Seq<char>>, sep: Seq<char>) -> Seq<char>
    decreases items.len(),
{
    if items.len() == 0 {
        Seq::empty()
    } else if items.len() == 1 {
        items[0]
    } else {
        join_spec(items.drop_last(), sep) + sep + items.last()
    }
}

// ───────────────────────── lemmas ─────────────────────────

/// `find_char` gives the first occurrence.
pub proof fn lemma_find_char(s: Seq<char>, c: char)
    ensures
        match find_char(s, c) {
            Some(i) => 0 <= i < s.len() && s[i] == c && forall|j: int| 0 <= j < i ==> s[j] != c,
            None => forall|j: int| 0 <= j < s.len() ==> s[j] != c,
        },
    decreases s.len(),
{
    if s.len() > 0 && s[0] != c {
        lemma_find_char(s.drop_first(), c);
        match find_char(s.drop_first(), c) {
            Some(i) => {
                assert forall|j: int| 0 <= j < i + 1 implies s[j] != c by {
                    if j > 0 {
                        assert(s[j] == s.drop_first()[j - 1]);
                    }
                }
            },
            None => {
                assert forall|j: int| 0 <= j < s.len() implies s[j] != c by {
                    if j > 0 {
                        assert(s[j] == s.drop_first()[j - 1]);
                    }
                }
            },
        }
    }
}

/// Characterizes `find_char` by its first occurrence.
pub proof fn lemma_find_char_is(s: Seq<char>, c: char, i: int)
    requires
        0 <= i < s.len(),
        s[i] == c,
        forall|j: int| 0 <= j < i ==> s[j] != c,
    ensures
        find_char(s, c) == Some(i),
{
    lemma_find_char(s, c);
    match find_char(s, c) {
        Some(k) => {
            if k < i {
                assert(s[k] != c);
            }
            if k > i {
            }
        },
        None => {
            assert(s[i] != c);
        },
    }
}

/// No occurrence means `find_char` is `None`.
pub proof fn lemma_find_char_none(s: Seq<char>, c: char)
    requires
        forall|j: int| 0 <= j < s.len() ==> s[j] != c,
    ensures
        find_char(s, c) == None::<int>,
{
    lemma_find_char(s, c);
    match find_char(s, c) {
        Some(k) => {
            assert(s[k] != c);
        },
        None => {},
    }
}

/// Leading whitespace can be skipped one character at a time.
proof fn lemma_trim_start_skip(s: Seq<char>, a: int)
    requires
        0 <= a <= s.len(),
        forall|j: int| 0 <= j < a ==> is_ws(s[j]),
    ensures
        trim_start(s) == trim_start(s.skip(a)),
    decreases a,
{
    if a > 0 {
        assert(s.drop_first().skip(a - 1) =~= s.skip(a));
        assert forall|j: int| 0 <= j < a - 1 implies is_ws(s.drop_first()[j]) by {
            assert(s.drop_first()[j] == s[j + 1]);
        }
        lemma_trim_start_skip(s.drop_first(), a - 1);
    } else {
        assert(s.skip(0) =~= s);
    }
}

/// Trailing whitespace can be dropped one character at a time.
proof fn lemma_trim_end_take(s: Seq<char>, b: int)
    requires
        0 <= b <= s.len(),
        forall|j: int| b <= j < s.len() ==> is_ws(s[j]),
    ensures
        trim_end(s) == trim_end(s.take(b)),
    decreases s.len() - b,
{
    if b < s.len() {
        assert(s.drop_last().take(b) =~= s.take(b));
        lemma_trim_end_take(s.drop_last(), b);
    } else {
        assert(s.take(b) =~= s);
    }
}

proof fn lemma_trim_start_char_skip(s: Seq<char>, c: char, a: int)
    requires
        0 <= a <= s.len(),
        forall|j: int| 0 <= j < a ==> s[j] == c,
    ensures
        trim_start_char(s, c) == trim_start_char(s.skip(a), c),
    decreases a,
{
    if a > 0 {
        assert(s.drop_first().skip(a - 1) =~= s.skip(a));
        assert forall|j: int| 0 <= j < a - 1 implies s.drop_first()[j] == c by {
            assert(s.drop_first()[j] == s[j + 1]);
        }
        lemma_trim_start_char_skip(s.drop_first(), c, a - 1);
    } else {
        assert(s.skip(0) =~= s);
    }
}

proof fn lemma_trim_end_char_take(s: Seq<char>, c: char, b: int)
    requires
        0 <= b <= s.len(),
        forall|j: int| b <= j < s.len() ==> s[j] == c,
    ensures
        trim_end_char(s, c) == trim_end_char(s.take(b), c),
    decreases s.len() - b,
{
    if b < s.len() {
        assert(s.drop_last().take(b) =~= s.take(b));
        lemma_trim_end_char_take(s.drop_last(), c, b);
    } else {
        assert(s.take(b) =~= s);
    }
}

proof fn lemma_find_from(s: Seq<char>, p: Seq<char>, i: int)
    requires
        0 <= i,
    ensures
        match find_from(s, p, i) {
            Some(k) => i <= k && occurs_at(s, p, k) && forall|j: int| i <= j < k ==> !occurs_at(s, p, j),
            None => forall|j: int| i <= j ==> !occurs_at(s, p, j),
        },
    decreases s.len() + 1 - i,
{
    if i + p.len() > s.len() {
    } else if occurs_at(s, p, i) {
    } else {
        lemma_find_from(s, p, i + 1);
    }
}

/// `find` gives the first occurrence, or `None` when there is none.
pub proof fn lemma_find(s: Seq<char>, p: Seq<char>)
    ensures
        match find(s, p) {
            Some(k) => occurs_at(s, p, k) && forall|j: int| 0 <= j < k ==> !occurs_at(s, p, j),
            None => !contains(s, p),
        },
{
    lemma_find_from(s, p, 0);
    if find(s, p) is None {
        assert forall|j: int| !occurs_at(s, p, j) by {
            if j >= 0 {
            }
        }
    }
}

/// The first occurrence is what `find` gives.
pub proof fn lemma_first_occurrence(s: Seq<char>, p: Seq<char>, k: int)
    requires
        occurs_at(s, p, k),
        forall|j: int| 0 <= j < k ==> !occurs_at(s, p, j),
    ensures
        find(s, p) == Some(k),
{
    lemma_find(s, p);
    match find(s, p) {
        Some(c) => {
            if c < k {
                assert(!occurs_at(s, p, c));
            }
            if c > k {
                assert(!occurs_at(s, p, k));
            }
        },
        None => {
            assert(occurs_at(s, p, k));
        },
    }
}

/// No occurrence means `find` is `None`.
pub proof fn lemma_find_none(s: Seq<char>, p: Seq<char>)
    requires
        !contains(s, p),
    ensures
        find(s, p) == None::<int>,
{
    lemma_find(s, p);
    if let Some(c) = find(s, p) {
        assert(occurs_at(s, p, c));
    }
}

// ───────────────────────── executable helpers ─────────────────────────

/// What `str::to_lowercase` gives: the full Unicode lowercase mapping, a function
/// of the characters alone.
pub uninterp spec fn lowercase(s: Seq<char>) -> Seq<char>;

/// `str::to_lowercase`. Its result is named by `lowercase`; the Unicode
/// mapping tables themselves are not restated.
#[verifier::external_body]
pub(crate) fn to_lowercase(s: &str) -> (r: String)
    ensures
        r@ == lowercase(s@),
{
    s.to_lowercase()
}

/// Appends one character to a `String` (std `String::push`).
#[verifier::external_body]
pub(crate) fn push_char(s: &mut String, c: char)
    ensures
        final(s)@ == old(s)@.push(c),
{
    s.push(c);
}

/// The characters of a string slice, as a vector.
pub fn chars_of(s: &str) -> (v: Vec<char>)
    ensures
        v@ == s@,
{
    let mut v: Vec<char> = Vec::new();
    for c in it: s.chars()
        invariant
            v@ == it.seq().take(it.index() as int),
    {
        v.push(c);
    }
    v
}

/// A string holding `v[lo..hi]`.
pub fn string_of_range(v: &Vec<char>, lo: usize, hi: usize) -> (s: String)
    requires
        lo <= hi <= v.len(),
    ensures
        s@ == v@.subrange(lo as int, hi as int),
{
    let mut s = String::new();
    let mut i: usize = lo;
    while i < hi
        invariant
            lo <= i <= hi <= v.len(),
            s@ == v@.subrange(lo as int, i as int),
        decreases hi - i,
    {
        push_char(&mut s, v[i]);
        i = i + 1;
        assert(s@ =~= v@.subrange(lo as int, i as int));
    }
    s
}

/// A string holding exactly the given characters.
pub fn string_of(v: &Vec<char>) -> (s: String)
    ensures
        s@ == v@,
{
    let s = string_of_range(v, 0, v.len());
    assert(v@.subrange(0, v@.len() as int) =~= v@);
    s
}

/// `s1 + s2` as a new string.
pub fn concat2(s1: &str, s2: &str) -> (s: String)
    ensures
        s@ == s1@ + s2@,
{
    let mut s = s1.to_owned();
    s.append(s2);
    s
}

/// Equality of two character vectors.
pub fn vec_eq(a: &Vec<char>, b: &Vec<char>) -> (r: bool)
    ensures
        r == (a@ == b@),
{
    if a.len() != b.len() {
        return false;
    }
    let mut i: usize = 0;
    while i < a.len()
        invariant
            i <= a.len() == b.len(),
            forall|j: int| 0 <= j < i ==> a@[j] == b@[j],
        decreases a.len() - i,
    {
        if a[i] != b[i] {
            return false;
        }
        i = i + 1;
    }
    assert(a@ =~= b@);
    true
}

/// Encoding one more character appends its encoding.
pub proof fn lemma_encode_utf8_push(s: Seq<char>, c: char)
    ensures
        encode_utf8(s.push(c)) == encode_utf8(s) + encode_scalar(c as u32),
    decreases s.len(),
{
    if s.len() == 0 {
        assert(s.push(c)[0] == c);
        assert(s.push(c).drop_first() =~= Seq::<char>::empty());
        assert(encode_utf8(s.push(c)) =~= encode_scalar(c as u32) + encode_utf8(Seq::<char>::empty()));
        assert(encode_utf8(s) =~= Seq::<u8>::empty());
        assert(encode_utf8(s.push(c)) =~= encode_utf8(s) + encode_scalar(c as u32));
    } else {
        assert(s.push(c).drop_first() =~= s.drop_first().push(c));
        lemma_encode_utf8_push(s.drop_first(), c);
        assert(encode_utf8(s.push(c)) =~= encode_utf8(s) + encode_scalar(c as u32));
    }
}

/// The number of bytes of the UTF-8 encoding of `v[lo..hi]` (what `str::len` gives).
pub fn utf8_len(v: &Vec<char>, lo: usize, hi: usize) -> (n: u128)
    requires
        lo <= hi <= v.len(),
    ensures
        n == encode_utf8(v@.subrange(lo as int, hi as int)).len(),
        n <= 4 * (hi - lo),
{

    let mut n: u128 = 0;
    let mut i = lo;
    assert(v@.subrange(lo as int, lo as int) =~= Seq::<char>::empty());
    while i < hi
        invariant
            lo <= i <= hi <= v.len(),
            n == encode_utf8(v@.subrange(lo as int, i as int)).len(),
            n <= 4 * (i - lo),
        decreases hi - i,
    {
        let c = v[i];
        let u = c as u32;
        let w: u128 = if u <= 0x7F {
            1
        } else if u <= 0x7FF {
            2
        } else if u <= 0xFFFF {
            3
        } else {
            4
        };
        proof {
            char_is_scalar(c);
            assert(w == encode_scalar(c as u32).len());
            assert(v@.subrange(lo as int, i + 1) =~= v@.subrange(lo as int, i as int).push(c));
            lemma_encode_utf8_push(v@.subrange(lo as int, i as int), c);
        }
        n = n + w;
        i = i + 1;
    }
    n
}

/// Equality of two string slices.
pub fn str_eq(a: &str, b: &str) -> (r: bool)
    ensures
        r == (a@ == b@),
{
    let va = chars_of(a);
    let vb = chars_of(b);
    vec_eq(&va, &vb)
}

/// `char::is_whitespace`.
pub fn is_whitespace(c: char) -> (b: bool)
    ensures
        b == is_ws(c),
{
    let u = c as u32;
    (0x09 <= u && u <= 0x0D) || u == 0x20 || u == 0x85 || u == 0xA0 || u == 0x1680 || (0x2000
        <= u && u <= 0x200A) || u == 0x2028 || u == 0x2029 || u == 0x202F || u == 0x205F || u
        == 0x3000
}

/// Bounds of `trim(v[lo..hi])` inside `v`.
pub fn trim_bounds(v: &Vec<char>, lo: usize, hi: usize) -> (r: (usize, usize))
    requires
        lo <= hi <= v.len(),
    ensures
        lo <= r.0 <= r.1 <= hi,
        v@.subrange(r.0 as int, r.1 as int) == trim(v@.subrange(lo as int, hi as int)),
{
    let ghost s = v@.subrange(lo as int, hi as int);
    let mut a = lo;
    while a < hi && is_whitespace(v[a])
        invariant
            lo <= a <= hi <= v.len(),
            s == v@.subrange(lo as int, hi as int),
            forall|j: int| lo <= j < a ==> is_ws(v@[j]),
        decreases hi - a,
    {
        a = a + 1;
    }
    proof {
        lemma_trim_start_skip(s, a - lo);
        let t = s.skip(a - lo);
        assert(t =~= v@.subrange(a as int, hi as int));
        if t.len() > 0 {
            assert(t[0] == v@[a as int]);
        }
        assert(trim_start(t) == t);
    }
    let mut b = hi;
    while b > a && is_whitespace(v[b - 1])
        invariant
            lo <= a <= b <= hi <= v.len(),
            forall|j: int| b <= j < hi ==> is_ws(v@[j]),
        decreases b - a,
    {
        b = b - 1;
    }
    proof {
        let t = v@.subrange(a as int, hi as int);
        lemma_trim_end_take(t, b - a);
        let u = t.take(b - a);
        assert(u =~= v@.subrange(a as int, b as int));
        if u.len() > 0 {
            assert(u.last() == v@[b - 1]);
        }
        assert(trim_end(u) == u);
    }
    (a, b)
}

/// `s.trim().to_string()`.
pub fn trim_string(s: &str) -> (r: String)
    ensures
        r@ == trim(s@),
{
    let v = chars_of(s);
    let (a, b) = trim_bounds(&v, 0, v.len());
    assert(v@.subrange(0, v.len() as int) =~= s@);
    string_of_range(&v, a, b)
}

/// Bounds of `trim_matches(c)` applied to `v[lo..hi]`.
pub fn trim_char_bounds(v: &Vec<char>, lo: usize, hi: usize, c: char) -> (r: (usize, usize))
    requires
        lo <= hi <= v.len(),
    ensures
        lo <= r.0 <= r.1 <= hi,
        v@.subrange(r.0 as int, r.1 as int) == trim_char(v@.subrange(lo as int, hi as int), c),
{
    let ghost s = v@.subrange(lo as int, hi as int);
    let mut a = lo;
    while a < hi && v[a] == c
        invariant
            lo <= a <= hi <= v.len(),
            s == v@.subrange(lo as int, hi as int),
            forall|j: int| lo <= j < a ==> v@[j] == c,
        decreases hi - a,
    {
        a = a + 1;
    }
    proof {
        lemma_trim_start_char_skip(s, c, a - lo);
        let t = s.skip(a - lo);
        assert(t =~= v@.subrange(a as int, hi as int));
        if t.len() > 0 {
            assert(t[0] == v@[a as int]);
        }
        assert(trim_start_char(t, c) == t);
    }
    let mut b = hi;
    while b > a && v[b - 1] == c
        invariant
            lo <= a <= b <= hi <= v.len(),
            forall|j: int| b <= j < hi ==> v@[j] == c,
        decreases b - a,
    {
        b = b - 1;
    }
    proof {
        let t = v@.subrange(a as int, hi as int);
        lemma_trim_end_char_take(t, c, b - a);
        let u = t.take(b - a);
        assert(u =~= v@.subrange(a as int, b as int));
        if u.len() > 0 {
            assert(u.last() == v@[b - 1]);
        }
        assert(trim_end_char(u, c) == u);
    }
    (a, b)
}

/// Start of `trim_start_matches(c)` applied to `v[lo..hi]`.
pub fn trim_start_char_bound(v: &Vec<char>, lo: usize, hi: usize, c: char) -> (a: usize)
    requires
        lo <= hi <= v.len(),
    ensures
        lo <= a <= hi,
        v@.subrange(a as int, hi as int) == trim_start_char(v@.subrange(lo as int, hi as int), c),
{
    let ghost s = v@.subrange(lo as int, hi as int);
    let mut a = lo;
    while a < hi && v[a] == c
        invariant
            lo <= a <= hi <= v.len(),
            s == v@.subrange(lo as int, hi as int),
            forall|j: int| lo <= j < a ==> v@[j] == c,
        decreases hi - a,
    {
        a = a + 1;
    }
    proof {
        lemma_trim_start_char_skip(s, c, a - lo);
        let t = s.skip(a - lo);
        assert(t =~= v@.subrange(a as int, hi as int));
        if t.len() > 0 {
            assert(t[0] == v@[a as int]);
        }
        assert(trim_start_char(t, c) == t);
    }
    a
}

/// End of `trim_end_matches(c)` applied to `v[lo..hi]`.
pub fn trim_end_char_bound(v: &Vec<char>, lo: usize, hi: usize, c: char) -> (b: usize)
    requires
        lo <= hi <= v.len(),
    ensures
        lo <= b <= hi,
        v@.subrange(lo as int, b as int) == trim_end_char(v@.subrange(lo as int, hi as int), c),
{
    let mut b = hi;
    while b > lo && v[b - 1] == c
        invariant
            lo <= b <= hi <= v.len(),
            forall|j: int| b <= j < hi ==> v@[j] == c,
        decreases b - lo,
    {
        b = b - 1;
    }
    proof {
        let t = v@.subrange(lo as int, hi as int);
        lemma_trim_end_char_take(t, c, b - lo);
        let u = t.take(b - lo);
        assert(u =~= v@.subrange(lo as int, b as int));
        if u.len() > 0 {
            assert(u.last() == v@[b - 1]);
        }
        assert(trim_end_char(u, c) == u);
    }
    b
}

/// First position of `c` in `v[lo..hi]`, relative to `lo`.
pub fn find_char_in(v: &Vec<char>, lo: usize, hi: usize, c: char) -> (r: Option<usize>)
    requires
        lo <= hi <= v.len(),
    ensures
        r matches Some(i) ==> find_char(v@.subrange(lo as int, hi as int), c) == Some(i as int),
        r is None ==> find_char(v@.subrange(lo as int, hi as int), c) == None::<int>,
        r matches Some(i) ==> lo + i < hi,
{
    let ghost s = v@.subrange(lo as int, hi as int);
    let mut i = lo;
    while i < hi
        invariant
            lo <= i <= hi <= v.len(),
            s == v@.subrange(lo as int, hi as int),
            forall|j: int| lo <= j < i ==> v@[j] != c,
        decreases hi - i,
    {
        if v[i] == c {
            proof {
                assert forall|j: int| 0 <= j < i - lo implies s[j] != c by {
                    assert(s[j] == v@[lo + j]);
                }
                lemma_find_char_is(s, c, i - lo);
            }
            return Some(i - lo);
        }
        i = i + 1;
    }
    proof {
        assert forall|j: int| 0 <= j < s.len() implies s[j] != c by {
            assert(s[j] == v@[lo + j]);
        }
        lemma_find_char_none(s, c);
    }
    None
}

/// Whether `v[lo..hi]` begins with `p`.
pub fn starts_with_in(v: &Vec<char>, lo: usize, hi: usize, p: &Vec<char>) -> (b: bool)
    requires
        lo <= hi <= v.len(),
    ensures
        b == starts_with(v@.subrange(lo as int, hi as int), p@),
{
    let ghost s = v@.subrange(lo as int, hi as int);
    if p.len() > hi - lo {
        return false;
    }
    let mut i: usize = 0;
    while i < p.len()
        invariant
            i <= p.len() <= hi - lo,
            lo <= hi <= v.len(),
            s == v@.subrange(lo as int, hi as int),
            forall|j: int| 0 <= j < i ==> v@[lo + j] == p@[j],
        decreases p.len() - i,
    {
        if v[lo + i] != p[i] {
            assert(s.take(p.len() as int)[i as int] != p@[i as int]);
            return false;
        }
        i = i + 1;
    }
    assert(s.take(p.len() as int) =~= p@);
    true
}

/// Whether `v[lo..hi]` ends with `p`.
pub fn ends_with_in(v: &Vec<char>, lo: usize, hi: usize, p: &Vec<char>) -> (b: bool)
    requires
        lo <= hi <= v.len(),
    ensures
        b == ends_with(v@.subrange(lo as int, hi as int), p@),
{
    let ghost s = v@.subrange(lo as int, hi as int);
    if p.len() > hi - lo {
        return false;
    }
    let start = hi - p.len();
    let mut i: usize = 0;
    while i < p.len()
        invariant
            i <= p.len() <= hi - lo,
            start == hi - p.len(),
            lo <= hi <= v.len(),
            s == v@.subrange(lo as int, hi as int),
            forall|j: int| 0 <= j < i ==> v@[start + j] == p@[j],
        decreases p.len() - i,
    {
        if v[start + i] != p[i] {
            assert(s.skip(s.len() - p.len())[i as int] != p@[i as int]);
            return false;
        }
        i = i + 1;
    }
    assert(s.skip(s.len() - p.len()) =~= p@);
    true
}

/// Whether `p` occurs in `v[lo..hi]` at relative position `k`.
fn occurs_at_in(v: &Vec<char>, lo: usize, hi: usize, p: &Vec<char>, k: usize) -> (b: bool)
    requires
        lo <= hi <= v.len(),
    ensures
        b == occurs_at(v@.subrange(lo as int, hi as int), p@, k as int),
{
    let ghost s = v@.subrange(lo as int, hi as int);
    if k > hi - lo || p.len() > hi - lo - k {
        return false;
    }
    let mut i: usize = 0;
    while i < p.len()
        invariant
            k + p.len() <= hi - lo,
            i <= p.len(),
            lo <= hi <= v.len(),
            s == v@.subrange(lo as int, hi as int),
            forall|j: int| 0 <= j < i ==> v@[lo + k + j] == p@[j],
        decreases p.len() - i,
    {
        if v[lo + k + i] != p[i] {
            assert(s.subrange(k as int, k + p.len())[i as int] != p@[i as int]);
            return false;
        }
        i = i + 1;
    }
    assert(s.subrange(k as int, k + p.len()) =~= p@);
    true
}

/// First position of `p` in `v[lo..hi]`, relative to `lo` (`str::find`).
pub fn find_in(v: &Vec<char>, lo: usize, hi: usize, p: &Vec<char>) -> (r: Option<usize>)
    requires
        lo <= hi <= v.len(),
    ensures
        r matches Some(i) ==> find(v@.subrange(lo as int, hi as int), p@) == Some(i as int),
        r matches Some(i) ==> i + p.len() <= hi - lo,
        r is None ==> find(v@.subrange(lo as int, hi as int), p@) == None::<int>,
{
    let ghost s = v@.subrange(lo as int, hi as int);
    let mut k: usize = 0;
    while k < hi - lo
        invariant
            lo <= hi <= v.len(),
            k <= hi - lo,
            s == v@.subrange(lo as int, hi as int),
            forall|j: int| 0 <= j < k ==> !occurs_at(s, p@, j),
        decreases hi - lo - k,
    {
        if occurs_at_in(v, lo, hi, p, k) {
            proof {
                lemma_first_occurrence(s, p@, k as int);
            }
            return Some(k);
        }
        k = k + 1;
    }
    if occurs_at_in(v, lo, hi, p, k) {
        proof {
            lemma_first_occurrence(s, p@, k as int);
        }
        return Some(k);
    }
    proof {
        assert forall|i: int| !occurs_at(s, p@, i) by {
            if 0 <= i <= k {
            }
        }
        lemma_find_none(s, p@);
    }
    None
}

/// Whether `p` occurs anywhere in `v[lo..hi]` (`str::contains`).
pub fn contains_in(v: &Vec<char>, lo: usize, hi: usize, p: &Vec<char>) -> (b: bool)
    requires
        lo <= hi <= v.len(),
    ensures
        b == contains(v@.subrange(lo as int, hi as int), p@),
{
    proof {
        lemma_find(v@.subrange(lo as int, hi as int), p@);
    }
    match find_in(v, lo, hi, p) {
        Some(_) => true,
        None => false,
    }
}


/// `items.join(sep)`.
pub fn join_strings(items: &Vec<String>, sep: &str) -> (s: String)
    ensures
        s@ == join_spec(items@.map_values(|x: String| x@), sep@),
{
    let ghost iv = items@.map_values(|x: String| x@);
    let mut joined = String::new();
    let mut i: usize = 0;
    while i < items.len()
        invariant
            i <= items.len(),
            iv == items@.map_values(|x: String| x@),
            joined@ == join_spec(iv.take(i as int), sep@),
        decreases items.len() - i,
    {
        if i > 0 {
            joined.append(sep);
        }
        joined.append(items[i].as_str());
        i = i + 1;
        proof {
            let t = iv.take(i as int);
            assert(t.drop_last() =~= iv.take(i - 1));
            assert(t.last() == items@[i - 1]@);
            if i == 1 {
                assert(join_spec(iv.take(0), sep@) == Seq::<char>::empty());
                assert(joined@ =~= t[0]);
            }
        }
    }
    assert(iv.take(items.len() as int) =~= iv);
    joined
}

} // verus!
