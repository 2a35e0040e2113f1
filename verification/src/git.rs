//! Repository browsing: branch references, paths inside trees, content types,
//! README selection, commit listings and merge bookkeeping.
use vstd::prelude::*;
use vstd::utf8::{decode_utf8, valid_utf8};
use crate::errors::AppError;
use crate::num::{i64_to_string, int_decimal};
use crate::text::{
    chars_of, ends_with, ends_with_in, str_eq, string_of_range, trim_char, trim_char_bounds, trim_end_char,
    trim_end_char_bound, trim_start_char, trim_start_char_bound,
};

verus! {

broadcast use vstd::string::group_string_axioms;

// ───────────────────────── outside names ─────────────────────────

/// The MIME type `mime_guess` gives first for a file extension, or
/// `application/octet-stream` when it knows none.
pub uninterp spec fn mime_of_extension(ext: Seq<char>) -> Seq<char>;

/// How a UNIX timestamp is printed as `%Y-%m-%d %H:%M:%S` in UTC by `chrono`
/// (empty when `chrono` cannot represent it).
pub uninterp spec fn utc_time_text(secs: int) -> Seq<char>;

/// `mime_guess::from_ext(ext).first_or_octet_stream().to_string()`. The claims:
/// the result is a function of the extension, and an empty extension (which
/// `from_ext` answers with an empty guess) gives `application/octet-stream`.
#[verifier::external_body]
fn mime_for_extension(ext: &str) -> (m: String)
    ensures
        m@ == mime_of_extension(ext@),
        ext@.len() == 0 ==> m@ == "application/octet-stream"@,
{
    mime_guess::from_ext(ext).first_or_octet_stream().to_string()
}

/// `chrono::DateTime::from_timestamp(secs, 0)` formatted with
/// `%Y-%m-%d %H:%M:%S`, or the empty string when out of range. The claim: the
/// result is a function of the timestamp.
#[verifier::external_body]
fn format_utc_timestamp(secs: i64) -> (s: String)
    ensures
        s@ == utc_time_text(secs as int),
{
    match chrono::DateTime::from_timestamp(secs, 0) {
        Some(dt) => dt.format("%Y-%m-%d %H:%M:%S").to_string(),
        None => String::new(),
    }
}

/// `String::from_utf8`: the bytes as a string when they are valid UTF-8.
#[verifier::external_body]
fn utf8_string(bytes: Vec<u8>) -> (r: Option<String>)
    ensures
        r is Some <==> valid_utf8(bytes@),
        r matches Some(s) ==> s@ == decode_utf8(bytes@),
{
    String::from_utf8(bytes).ok()
}

// ───────────────────────── specifications ─────────────────────────

/// The full name of a branch reference.
pub open spec fn branch_ref_spec(branch: Seq<char>) -> Seq<char> {
    "refs/heads/"@ + branch
}

/// The last position of `c` in `s`.
pub open spec fn rfind_char(s: Seq<char>, c: char) -> Option<int>
    decreases s.len(),
{
    if s.len() == 0 {
        None
    } else if s.last() == c {
        Some(s.len() - 1)
    } else {
        rfind_char(s.drop_last(), c)
    }
}

/// `Path::file_name`: the last component of a `/`-separated path, ignoring
/// trailing slashes and `.` components; none when that component is `..` or
/// there is no normal component.
pub open spec fn file_name_spec(p: Seq<char>) -> Option<Seq<char>>
    decreases p.len(),
{
    let q = trim_end_char(p, '/');
    proof {
        lemma_trim_end_char_prefix(p, '/');
    }
    if q.len() == 0 {
        None
    } else {
        match rfind_char(q, '/') {
            None => if q == "."@ || q == ".."@ {
                None
            } else {
                Some(q)
            },
            Some(i) => {
                proof {
                    lemma_rfind_char(q, '/');
                }
                let last = q.skip(i + 1);
                if last == "."@ {
                    file_name_spec(q.take(i))
                } else if last == ".."@ {
                    None
                } else {
                    Some(last)
                }
            },
        }
    }
}

/// The extension of a file name: after its last dot, unless that dot starts the
/// name (or the name is `..`).
pub open spec fn dot_extension(name: Seq<char>) -> Option<Seq<char>> {
    if name == ".."@ {
        None
    } else {
        match rfind_char(name, '.') {
            Some(i) => if i == 0 {
                None
            } else {
                Some(name.skip(i + 1))
            },
            None => None,
        }
    }
}

/// `Path::extension`.
pub open spec fn extension_spec(p: Seq<char>) -> Option<Seq<char>> {
    match file_name_spec(p) {
        Some(f) => dot_extension(f),
        None => None,
    }
}

/// The content type reported for a tree entry with the given name.
pub open spec fn entry_content_type_spec(name: Option<Seq<char>>) -> Seq<char> {
    match name {
        Some(n) => match extension_spec(n) {
            Some(e) => mime_of_extension(e),
            None => "application/octet-stream"@,
        },
        None => "application/octet-stream"@,
    }
}

/// The content type reported for a staged file at `path`.
pub open spec fn path_content_type_spec(path: Seq<char>) -> Seq<char> {
    match extension_spec(path) {
        Some(e) => mime_of_extension(e),
        None => mime_of_extension(Seq::empty()),
    }
}

/// `Path::new(dir).join(name)`: an absolute `name` replaces `dir`; otherwise a
/// `/` goes between them unless `dir` is empty or already ends with one.
pub open spec fn path_join_spec(dir: Seq<char>, name: Seq<char>) -> Seq<char> {
    if name.len() > 0 && name[0] == '/' {
        name
    } else if dir.len() == 0 {
        name
    } else if dir.last() == '/' {
        dir + name
    } else {
        dir + "/"@ + name
    }
}

/// The first README among the candidates (in the order `README.md`,
/// `readme.md`, `Readme.md`) whose content is valid UTF-8.
pub open spec fn first_readme(contents: Seq<Option<Seq<u8>>>) -> Option<Seq<char>>
    decreases contents.len(),
{
    if contents.len() == 0 {
        None
    } else {
        match contents[0] {
            Some(b) => if valid_utf8(b) {
                Some(decode_utf8(b))
            } else {
                first_readme(contents.drop_first())
            },
            None => first_readme(contents.drop_first()),
        }
    }
}

/// The merge commit message.
pub open spec fn merge_message_spec(number: int, head_owner: Seq<char>, head_repo: Seq<char>, title: Seq<char>) -> Seq<char> {
    "Merge pull request #"@ + int_decimal(number) + " from "@ + head_owner + "/"@ + head_repo + ": "@ + title
}

// ───────────────────────── lemmas ─────────────────────────

pub proof fn lemma_trim_end_char_prefix(s: Seq<char>, c: char)
    ensures
        trim_end_char(s, c).len() <= s.len(),
        trim_end_char(s, c) == s.take(trim_end_char(s, c).len() as int),
    decreases s.len(),
{
    if s.len() > 0 && s.last() == c {
        lemma_trim_end_char_prefix(s.drop_last(), c);
        let k = trim_end_char(s.drop_last(), c).len() as int;
        assert(s.drop_last().take(k) =~= s.take(k));
    } else {
        assert(s.take(s.len() as int) =~= s);
    }
}

pub proof fn lemma_rfind_char(s: Seq<char>, c: char)
    ensures
        match rfind_char(s, c) {
            Some(i) => 0 <= i < s.len() && s[i] == c && forall|j: int| i < j < s.len() ==> s[j] != c,
            None => forall|j: int| 0 <= j < s.len() ==> s[j] != c,
        },
    decreases s.len(),
{
    if s.len() > 0 && s.last() != c {
        lemma_rfind_char(s.drop_last(), c);
        assert(forall|j: int| 0 <= j < s.len() - 1 ==> s.drop_last()[j] == s[j]);
    }
}

// ───────────────────────── executable code ─────────────────────────

/// The program that serves git over HTTP: `git.exe` on Windows, else `git`.
pub fn git_backend_path(windows: bool) -> (p: &'static str)
    ensures
        p@ == if windows {
            "git.exe"@
        } else {
            "git"@
        },
{
    if windows {
        "git.exe"
    } else {
        "git"
    }
}

/// `refs/heads/<branch>`.
pub fn branch_ref(branch: &str) -> (r: String)
    ensures
        r@ == branch_ref_spec(branch@),
{
    let mut r = String::from_str("refs/heads/");
    r.append(branch);
    r
}

/// A path inside a tree as the object store wants it: leading slashes dropped.
pub fn tree_path(path: &str) -> (r: String)
    ensures
        r@ == trim_start_char(path@, '/'),
{
    let v = chars_of(path);
    assert(v@.subrange(0, v.len() as int) =~= path@);
    let a = trim_start_char_bound(&v, 0, v.len(), '/');
    string_of_range(&v, a, v.len())
}

/// The Pages source directory inside a tree: slashes dropped at both ends.
pub fn source_subdir(dir: &str) -> (r: String)
    ensures
        r@ == trim_char(dir@, '/'),
{
    let v = chars_of(dir);
    assert(v@.subrange(0, v.len() as int) =~= dir@);
    let (a, b) = trim_char_bounds(&v, 0, v.len(), '/');
    string_of_range(&v, a, b)
}

/// Last position of `c` in `v[lo..hi]`, relative to `lo`.
fn rfind_char_in(v: &Vec<char>, lo: usize, hi: usize, c: char) -> (r: Option<usize>)
    requires
        lo <= hi <= v.len(),
    ensures
        match r {
            Some(i) => rfind_char(v@.subrange(lo as int, hi as int), c) == Some(i as int) && lo + i < hi,
            None => rfind_char(v@.subrange(lo as int, hi as int), c) == None::<int>,
        },
{
    let mut j = hi;
    while j > lo
        invariant
            lo <= j <= hi <= v.len(),
            rfind_char(v@.subrange(lo as int, hi as int), c) == rfind_char(v@.subrange(lo as int, j as int), c),
        decreases j,
    {
        let ghost s = v@.subrange(lo as int, j as int);
        assert(s.last() == v@[j - 1]);
        if v[j - 1] == c {
            return Some(j - 1 - lo);
        }
        assert(s.drop_last() =~= v@.subrange(lo as int, j - 1));
        j = j - 1;
    }
    None
}

/// Whether `v[a..b]` is the given short literal.
fn range_is(v: &Vec<char>, a: usize, b: usize, lit: &str) -> (r: bool)
    requires
        a <= b <= v.len(),
    ensures
        r == (v@.subrange(a as int, b as int) == lit@),
{
    let s = string_of_range(v, a, b);
    str_eq(s.as_str(), lit)
}

/// Bounds of `Path::file_name` for `v[0..hi]`.
fn file_name_bounds(v: &Vec<char>, hi: usize) -> (r: Option<(usize, usize)>)
    requires
        hi <= v.len(),
    ensures
        match r {
            Some((a, b)) => a <= b <= hi && file_name_spec(v@.take(hi as int)) == Some(
                v@.subrange(a as int, b as int),
            ),
            None => file_name_spec(v@.take(hi as int)) == None::<Seq<char>>,
        },
    decreases hi,
{
    let ghost p = v@.take(hi as int);
    assert(v@.subrange(0, hi as int) =~= p);
    let q_end = trim_end_char_bound(v, 0, hi, '/');
    let ghost q = v@.subrange(0, q_end as int);
    if q_end == 0 {
        return None;
    }
    match rfind_char_in(v, 0, q_end, '/') {
        None => {
            if range_is(v, 0, q_end, ".") || range_is(v, 0, q_end, "..") {
                None
            } else {
                Some((0, q_end))
            }
        },
        Some(i) => {
            proof {
                lemma_rfind_char(q, '/');
            }
            assert(q.skip(i + 1) =~= v@.subrange(i + 1, q_end as int));
            if range_is(v, i + 1, q_end, ".") {
                assert(q.take(i as int) =~= v@.take(i as int));
                file_name_bounds(v, i)
            } else if range_is(v, i + 1, q_end, "..") {
                None
            } else {
                Some((i + 1, q_end))
            }
        },
    }
}

/// `Path::new(path).extension()`, as a string.
pub fn path_extension(path: &str) -> (r: Option<String>)
    ensures
        match r {
            Some(e) => extension_spec(path@) == Some(e@),
            None => extension_spec(path@) == None::<Seq<char>>,
        },
{
    let v = chars_of(path);
    assert(v@.take(v.len() as int) =~= path@);
    match file_name_bounds(&v, v.len()) {
        None => None,
        Some((a, b)) => {
            let ghost name = v@.subrange(a as int, b as int);
            if range_is(&v, a, b, "..") {
                return None;
            }
            match rfind_char_in(&v, a, b, '.') {
                Some(i) => {
                    if i == 0 {
                        None
                    } else {
                        assert(name.skip(i + 1) =~= v@.subrange(a + i + 1, b as int));
                        Some(string_of_range(&v, a + i + 1, b))
                    }
                },
                None => None,
            }
        },
    }
}

/// The content type reported for a tree entry: by its extension, or
/// `application/octet-stream` when it has none (or no readable name).
pub fn entry_content_type(name: Option<&str>) -> (m: String)
    ensures
        m@ == entry_content_type_spec(
            match name {
                Some(n) => Some(n@),
                None => None,
            },
        ),
{
    match name {
        Some(n) => match path_extension(n) {
            Some(e) => mime_for_extension(e.as_str()),
            None => String::from_str("application/octet-stream"),
        },
        None => String::from_str("application/octet-stream"),
    }
}

/// The content type reported for a staged file: by its extension (an empty
/// one when it has none).
pub fn path_content_type(path: &str) -> (m: String)
    ensures
        m@ == path_content_type_spec(path@),
{
    match path_extension(path) {
        Some(e) => mime_for_extension(e.as_str()),
        None => {
            proof {
                reveal_strlit("");
                assert(""@ =~= Seq::<char>::empty());
            }
            mime_for_extension("")
        },
    }
}

/// `Path::new(dir).join(name)`.
pub fn path_join(dir: &str, name: &str) -> (r: String)
    ensures
        r@ == path_join_spec(dir@, name@),
{
    let nv = chars_of(name);
    if nv.len() > 0 && nv[0] == '/' {
        return String::from_str(name);
    }
    let v = chars_of(dir);
    if v.len() == 0 {
        return String::from_str(name);
    }
    let mut r = String::from_str(dir);
    if v[v.len() - 1] != '/' {
        r.append("/");
    }
    r.append(name);
    r
}

/// Where a repository's `HEAD` file is; the repository exists when it does.
pub fn repo_head_path(repo_path: &str) -> (r: String)
    ensures
        r@ == path_join_spec(repo_path@, "HEAD"@),
{
    path_join(repo_path, "HEAD")
}

/// The README file names tried, in order.
pub fn readme_candidates() -> (v: Vec<String>)
    ensures
        v@.map_values(|s: String| s@) == seq!["README.md"@, "readme.md"@, "Readme.md"@],
{
    let v = vec![String::from_str("README.md"), String::from_str("readme.md"), String::from_str("Readme.md")];
    assert(v@.map_values(|s: String| s@) =~= seq!["README.md"@, "readme.md"@, "Readme.md"@]);
    v
}

/// The view of the candidates' contents.
pub open spec fn contents_view(contents: Seq<Option<Vec<u8>>>) -> Seq<Option<Seq<u8>>> {
    contents.map_values(|c: Option<Vec<u8>>| match c {
        Some(b) => Some(b@),
        None => None,
    })
}

/// The README text of a repository: given what each candidate name held in the
/// branch (`None` where the file is missing), the first one that is valid UTF-8.
pub fn get_readme(contents: &Vec<Option<Vec<u8>>>) -> (r: Option<String>)
    ensures
        match r {
            Some(s) => first_readme(contents_view(contents@)) == Some(s@),
            None => first_readme(contents_view(contents@)) == None::<Seq<char>>,
        },
{
    let ghost cv = contents_view(contents@);
    let mut i: usize = 0;
    assert(cv.skip(0) =~= cv);
    while i < contents.len()
        invariant
            i <= contents.len(),
            cv == contents_view(contents@),
            first_readme(cv) == first_readme(cv.skip(i as int)),
        decreases contents.len() - i,
    {
        assert(cv.skip(i as int)[0] == cv[i as int]);
        assert(cv.skip(i as int).drop_first() =~= cv.skip(i + 1));
        if let Some(b) = &contents[i] {
            let bytes = vstd::slice::slice_to_vec(b.as_slice());
            if let Some(s) = utf8_string(bytes) {
                return Some(s);
            }
        }
        i = i + 1;
    }
    None
}

/// One line of a commit listing: short id, message, author, time.
pub struct CommitInfo {
    pub short_sha: String,
    pub message: String,
    pub author: String,
    pub time: String,
}

/// The listing line for a commit: the first 8 characters of its id, its
/// message (empty when not UTF-8), its author (`unknown` when not UTF-8) and its
/// time printed in UTC. The id must begin with 8 ASCII characters, as hex ids do.
pub fn commit_info(sha: &str, message: Option<&str>, author: Option<&str>, time: i64) -> (c: CommitInfo)
    requires
        sha@.len() >= 8,
        forall|i: int| 0 <= i < 8 ==> (sha@[i] as u32) < 128,
    ensures
        c.short_sha@ == sha@.take(8),
        c.message@ == match message {
            Some(m) => m@,
            None => Seq::<char>::empty(),
        },
        c.author@ == match author {
            Some(a) => a@,
            None => "unknown"@,
        },
        c.time@ == utc_time_text(time as int),
{
    let v = chars_of(sha);
    let short_sha = string_of_range(&v, 0, 8);
    assert(v@.subrange(0, 8) =~= sha@.take(8));
    let message = match message {
        Some(m) => String::from_str(m),
        None => String::new(),
    };
    let author = match author {
        Some(a) => String::from_str(a),
        None => String::from_str("unknown"),
    };
    CommitInfo { short_sha, message, author, time: format_utc_timestamp(time) }
}

/// The message of the merge commit made for a pull request.
pub fn merge_message(number: i64, head_owner: &str, head_repo: &str, title: &str) -> (m: String)
    ensures
        m@ == merge_message_spec(number as int, head_owner@, head_repo@, title@),
{
    let mut m = String::from_str("Merge pull request #");
    m.append(i64_to_string(number).as_str());
    m.append(" from ");
    m.append(head_owner);
    m.append("/");
    m.append(head_repo);
    m.append(": ");
    m.append(title);
    m
}

/// The kinds of change a diff reports for a file.
#[derive(Clone, Copy, PartialEq, Eq, Structural, Debug)]
pub enum DeltaStatus {
    Added,
    Deleted,
    Modified,
    Renamed,
    Copied,
    Other,
}

pub open spec fn delta_name_spec(d: DeltaStatus) -> Seq<char> {
    match d {
        DeltaStatus::Added => "added"@,
        DeltaStatus::Deleted => "deleted"@,
        DeltaStatus::Modified => "modified"@,
        DeltaStatus::Renamed => "renamed"@,
        DeltaStatus::Copied => "copied"@,
        DeltaStatus::Other => "unknown"@,
    }
}

/// The name under which a change appears in a pull request's diff.
pub fn delta_name(d: DeltaStatus) -> (s: String)
    ensures
        s@ == delta_name_spec(d),
{
    match d {
        DeltaStatus::Added => String::from_str("added"),
        DeltaStatus::Deleted => String::from_str("deleted"),
        DeltaStatus::Modified => String::from_str("modified"),
        DeltaStatus::Renamed => String::from_str("renamed"),
        DeltaStatus::Copied => String::from_str("copied"),
        DeltaStatus::Other => String::from_str("unknown"),
    }
}

/// The error for a Pages branch that does not exist.
pub fn missing_branch_error(branch: &str) -> (e: AppError)
    ensures
        e is NotFound && e.msg() == "Branch '"@ + branch@ + "' not found"@,
{
    let mut m = String::from_str("Branch '");
    m.append(branch);
    m.append("' not found");
    AppError::NotFound(m)
}

/// The error for a Pages source directory that the branch does not hold.
pub fn missing_source_dir_error(source_dir: &str) -> (e: AppError)
    ensures
        e is NotFound && e.msg() == "Source dir '"@ + source_dir@ + "' not found"@,
{
    let mut m = String::from_str("Source dir '");
    m.append(source_dir);
    m.append("' not found");
    AppError::NotFound(m)
}

/// The error for a `git` command that failed: what was attempted, then what
/// the command printed on its error stream.
pub fn git_command_error(what: &str, stderr: &str) -> (e: AppError)
    ensures
        e is Internal && e.msg() == what@ + ": "@ + stderr@,
{
    let mut m = String::from_str(what);
    m.append(": ");
    m.append(stderr);
    AppError::Internal(m)
}

// ───────────────────────── published sites ─────────────────────────

/// The files a request to a published site may be answered with: the file at
/// the path, and, for the site root or a path ending in `/`, the site's
/// `index.html` in case that file is missing.
pub struct PagesLookup {
    pub file: String,
    pub index: Option<String>,
}

/// Where to look for a published page.
pub fn pages_lookup(pages_dir: &str, path: &str) -> (l: PagesLookup)
    ensures
        l.file@ == path_join_spec(pages_dir@, path@),
        match l.index {
            Some(i) => (path@.len() == 0 || path@.last() == '/') && i@ == path_join_spec(
                pages_dir@,
                "index.html"@,
            ),
            None => !(path@.len() == 0 || path@.last() == '/'),
        },
{
    let file = path_join(pages_dir, path);
    let v = chars_of(path);
    let dir_like = v.len() == 0 || v[v.len() - 1] == '/';
    if dir_like {
        PagesLookup { file, index: Some(path_join(pages_dir, "index.html")) }
    } else {
        PagesLookup { file, index: None }
    }
}

// ───────────────────────── browsing requests ─────────────────────────

/// Which directory of which branch to list.
pub struct TreeQuery {
    pub branch: Option<String>,
    pub path: Option<String>,
}

/// Which file of which branch to show.
pub struct BlobQuery {
    pub branch: Option<String>,
    pub path: String,
}

/// Which branch's README to show.
pub struct ReadmeQuery {
    pub branch: Option<String>,
}

/// The branch (default: the repository's default branch) and directory
/// (default: the top) of a listing.
pub fn tree_request(default_branch: &str, q: &TreeQuery) -> (r: (String, String))
    ensures
        r.0@ == match q.branch {
            Some(b) => b@,
            None => default_branch@,
        },
        r.1@ == match q.path {
            Some(p) => p@,
            None => Seq::<char>::empty(),
        },
{
    let branch = match &q.branch {
        Some(b) => b.clone(),
        None => String::from_str(default_branch),
    };
    let path = match &q.path {
        Some(p) => p.clone(),
        None => String::new(),
    };
    (branch, path)
}

/// A file path ending in `.md` or `.markdown` is rendered as Markdown.
pub fn is_markdown_path(path: &str) -> (b: bool)
    ensures
        b == (ends_with(path@, ".md"@) || ends_with(path@, ".markdown"@)),
{
    let v = chars_of(path);
    assert(v@.subrange(0, v.len() as int) =~= path@);
    let md = chars_of(".md");
    let markdown = chars_of(".markdown");
    ends_with_in(&v, 0, v.len(), &md) || ends_with_in(&v, 0, v.len(), &markdown)
}

/// The branch (default: the repository's default branch) and the file path
/// (leading slashes dropped) of a file view, and whether it is Markdown.
pub fn blob_request(default_branch: &str, q: &BlobQuery) -> (r: (String, String, bool))
    ensures
        r.0@ == match q.branch {
            Some(b) => b@,
            None => default_branch@,
        },
        r.1@ == trim_start_char(q.path@, '/'),
        r.2 == (ends_with(r.1@, ".md"@) || ends_with(r.1@, ".markdown"@)),
{
    let branch = match &q.branch {
        Some(b) => b.clone(),
        None => String::from_str(default_branch),
    };
    let path = tree_path(q.path.as_str());
    let md = is_markdown_path(path.as_str());
    (branch, path, md)
}

/// The branch whose README is shown: as asked, else `main`.
pub fn readme_branch(q: &ReadmeQuery) -> (b: String)
    ensures
        b@ == match q.branch {
            Some(x) => x@,
            None => "main"@,
        },
{
    match &q.branch {
        Some(x) => x.clone(),
        None => String::from_str("main"),
    }
}

} // verus!
