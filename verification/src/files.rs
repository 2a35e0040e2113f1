//! The staging area (file manager): which paths may be touched and how they are formed.
use vstd::prelude::*;
use crate::errors::AppError;
use crate::text::{
    chars_of, concat2, contains, contains_in, occurs_at, string_of_range, trim, trim_bounds,
    trim_end_char, trim_end_char_bound, trim_start_char, trim_start_char_bound,
};

verus! {

broadcast use vstd::string::group_string_axioms;

/// Where `file_path` lands under `base`: one `/` between them, whatever slashes
/// they had at the seam.
pub open spec fn joined_path(base: Seq<char>, file_path: Seq<char>) -> Seq<char> {
    trim_end_char(base, '/') + "/"@ + trim_start_char(file_path, '/')
}

/// Resolves a user-supplied path inside the staging directory `base`.
/// A path that contains `..` anywhere is refused.
pub fn safe_path(base: &str, file_path: &str) -> (r: Result<String, AppError>)
    ensures
        r is Err <==> contains(file_path@, ".."@),
        r matches Err(e) ==> e is BadRequest && e.msg() == "不允許的路徑跳躍"@,
        r matches Ok(p) ==> p@ == joined_path(base@, file_path@),
{
    let f = chars_of(file_path);
    let dots = chars_of("..");
    assert(f@.subrange(0, f@.len() as int) =~= file_path@);
    if contains_in(&f, 0, f.len(), &dots) {
        return Err(AppError::BadRequest("不允許的路徑跳躍".to_string()));
    }
    let b = chars_of(base);
    assert(b@.subrange(0, b@.len() as int) =~= base@);
    let be = trim_end_char_bound(&b, 0, b.len(), '/');
    let fs = trim_start_char_bound(&f, 0, f.len(), '/');
    let mut p = string_of_range(&b, 0, be);
    p.append("/");
    let rest = string_of_range(&f, fs, f.len());
    p.append(rest.as_str());
    Ok(p)
}

/// Stripping leading characters leaves a suffix.
proof fn lemma_trim_start_char_is_suffix(s: Seq<char>, c: char)
    ensures
        exists|k: int| 0 <= k <= s.len() && trim_start_char(s, c) == s.skip(k),
    decreases s.len(),
{
    if s.len() > 0 && s[0] == c {
        lemma_trim_start_char_is_suffix(s.drop_first(), c);
        let k = choose|k: int|
            0 <= k <= s.drop_first().len() && trim_start_char(s.drop_first(), c)
                == s.drop_first().skip(k);
        assert(s.drop_first().skip(k) =~= s.skip(k + 1));
    } else {
        assert(s.skip(0) =~= s);
    }
}

/// A part of the path that the user supplied, resolved by `safe_path`, never
/// holds `..`: the resolved path is the base directory, one `/`, and a piece
/// of the user's path that has no `..` in it.
pub proof fn lemma_safe_path_stays_inside(base: Seq<char>, file_path: Seq<char>)
    requires
        !contains(file_path, ".."@),
    ensures
        ({
            let prefix = trim_end_char(base, '/') + "/"@;
            let rest = joined_path(base, file_path).skip(prefix.len() as int);
            &&& joined_path(base, file_path).take(prefix.len() as int) == prefix
            &&& !contains(rest, ".."@)
        }),
{
    let prefix = trim_end_char(base, '/') + "/"@;
    let t = trim_start_char(file_path, '/');
    let j = joined_path(base, file_path);
    assert(j =~= prefix + t);
    assert(j.take(prefix.len() as int) =~= prefix);
    assert(j.skip(prefix.len() as int) =~= t);
    lemma_trim_start_char_is_suffix(file_path, '/');
    let k = choose|k: int| 0 <= k <= file_path.len() && t == file_path.skip(k);
    if contains(t, ".."@) {
        let d = ".."@;
        let i = choose|i: int| occurs_at(t, d, i);
        assert(t.subrange(i, i + d.len()) =~= file_path.subrange(k + i, k + i + d.len()));
        assert(occurs_at(file_path, d, k + i));
    }
}

/// Which staged file to write; the body is its new content.
pub struct WriteQuery {
    pub path: String,
}

/// Which staged file to delete.
pub struct DeleteQuery {
    pub path: String,
}

/// Which staged directory to create.
pub struct MkdirQuery {
    pub path: String,
}

/// A staged file or directory to move, and where to.
pub struct MoveQuery {
    pub from: String,
    pub to: String,
}

/// The message of a commit of the staged tree.
pub struct CommitBody {
    pub message: String,
}

/// Both ends of a move must stay inside the staging directory.
pub fn move_paths(base: &str, q: &MoveQuery) -> (r: Result<(String, String), AppError>)
    ensures
        r is Err <==> contains(q.from@, ".."@) || contains(q.to@, ".."@),
        r matches Err(e) ==> e is BadRequest && e.msg() == "不允許的路徑跳躍"@,
        r matches Ok(p) ==> p.0@ == joined_path(base@, q.from@) && p.1@ == joined_path(base@, q.to@),
{
    let src = safe_path(base, q.from.as_str())?;
    let dst = safe_path(base, q.to.as_str())?;
    Ok((src, dst))
}

/// A commit needs a message that is not blank.
pub fn check_commit_message(body: &CommitBody) -> (r: Result<(), AppError>)
    ensures
        r is Err <==> trim(body.message@).len() == 0,
        r matches Err(e) ==> e is BadRequest && e.msg() == "Commit 訊息不能為空"@,
{
    let message = body.message.as_str();
    let v = chars_of(message);
    let (a, b) = trim_bounds(&v, 0, v.len());
    assert(v@.subrange(0, v@.len() as int) =~= message@);
    if a == b {
        return Err(AppError::BadRequest("Commit 訊息不能為空".to_string()));
    }
    Ok(())
}

/// `name` under `prefix` (just `name` at the top level).
pub open spec fn child_path_spec(prefix: Seq<char>, name: Seq<char>) -> Seq<char> {
    if prefix.len() == 0 {
        name
    } else {
        prefix + "/"@ + name
    }
}

/// The relative path of an entry found while walking a directory tree.
pub fn child_path(prefix: &str, name: &str) -> (s: String)
    ensures
        s@ == child_path_spec(prefix@, name@),
{
    if prefix.is_empty() {
        name.to_string()
    } else {
        let mut s = concat2(prefix, "/");
        s.append(name);
        s
    }
}


/// Which staged directory to list.
pub struct TreeQuery {
    pub path: Option<String>,
}

/// Which staged file to send as it is.
pub struct RawQuery {
    pub path: String,
}

/// The directory a staging listing reads: the requested path (default `/`)
/// without its leading slashes, joined onto the staging root.
pub fn staging_listing_dir(base: &str, q: &TreeQuery) -> (d: String)
    ensures
        d@ == crate::git::path_join_spec(
            base@,
            trim_start_char(
                match q.path {
                    Some(p) => p@,
                    None => "/"@,
                },
                '/',
            ),
        ),
{
    let requested = match &q.path {
        Some(p) => p.clone(),
        None => String::from_str("/"),
    };
    let rel = crate::git::tree_path(requested.as_str());
    crate::git::path_join(base, rel.as_str())
}

/// The content type a raw staged file is sent with, by its extension.
pub fn raw_content_type(q: &RawQuery) -> (m: String)
    ensures
        m@ == crate::git::path_content_type_spec(q.path@),
{
    crate::git::path_content_type(q.path.as_str())
}

} // verus!
