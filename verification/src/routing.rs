//! Which requests need a login, and where the fallback handler sends a path.
use vstd::prelude::*;
use crate::config::{pages_dir_spec, repo_path_spec};
use crate::num::{decimal, u64_to_string};
use crate::text::{
    chars_of, concat2, find_char, find_char_in, has_char, lemma_find_char, lemma_find_char_is, starts_with,
    starts_with_in, str_eq, string_of_range,
};

verus! {

broadcast use vstd::string::group_string_axioms;

// ───────────────────────── authentication ─────────────────────────

/// Requests that pass without a token: everything outside `/api/`, CORS
/// preflights, login and registration, and reads under `/api/` except the
/// caller's own profile and repository list.
pub open spec fn is_public_spec(path: Seq<char>, method: Seq<char>) -> bool {
    let get = method == "GET"@;
    ||| !starts_with(path, "/api/"@)
    ||| method == "OPTIONS"@
    ||| path == "/api/auth/login"@
    ||| path == "/api/auth/register"@
    ||| (starts_with(path, "/api/repos/"@) && get)
    ||| (starts_with(path, "/api/"@) && get && path != "/api/auth/me"@ && path != "/api/repos"@)
}

/// Whether a request may go through without a valid token.
pub fn is_public_request(path: &str, method: &str) -> (b: bool)
    ensures
        b == is_public_spec(path@, method@),
{
    let p = chars_of(path);
    assert(p@.subrange(0, p@.len() as int) =~= path@);
    let api = chars_of("/api/");
    let repos = chars_of("/api/repos/");
    let get = str_eq(method, "GET");
    let is_non_api = !starts_with_in(&p, 0, p.len(), &api);
    let is_cors_preflight = str_eq(method, "OPTIONS");
    let is_public_auth = str_eq(path, "/api/auth/login") || str_eq(path, "/api/auth/register");
    let is_get_repo_by_id = starts_with_in(&p, 0, p.len(), &repos) && get;
    let is_public_get = !is_non_api && get && !str_eq(path, "/api/auth/me") && !str_eq(
        path,
        "/api/repos",
    );
    is_non_api || is_cors_preflight || is_public_auth || is_get_repo_by_id || is_public_get
}

/// A write to the API other than login and registration always needs a token.
pub proof fn lemma_api_writes_need_login(path: Seq<char>, method: Seq<char>)
    requires
        starts_with(path, "/api/"@),
        method != "GET"@,
        method != "OPTIONS"@,
        path != "/api/auth/login"@,
        path != "/api/auth/register"@,
    ensures
        !is_public_spec(path, method),
{
}

/// The caller's own profile and repository list always need a token.
pub proof fn lemma_own_data_needs_login(method: Seq<char>)
    requires
        method != "OPTIONS"@,
    ensures
        !is_public_spec("/api/auth/me"@, method),
        method != "GET"@ ==> !is_public_spec("/api/repos"@, method),
{
    reveal_strlit("/api/auth/me");
    reveal_strlit("/api/repos");
    reveal_strlit("/api/repos/");
    reveal_strlit("/api/");
    reveal_strlit("/api/auth/login");
    reveal_strlit("/api/auth/register");
    assert("/api/auth/me"@.take(5) =~= "/api/"@);
    assert("/api/auth/me"@.take(11)[5] != "/api/repos/"@[5]);
    assert("/api/repos"@.take(5) =~= "/api/"@);
    assert("/api/auth/me"@ != "/api/auth/login"@);
    assert("/api/auth/me"@ != "/api/auth/register"@);
    assert(starts_with("/api/repos"@, "/api/"@));
    assert(!starts_with("/api/repos"@, "/api/repos/"@));
    assert("/api/repos"@ != "/api/auth/login"@);
    assert("/api/repos"@ != "/api/auth/register"@);
}

/// The token of an `Authorization: Bearer <token>` header.
pub fn bearer_token(header: &str) -> (t: Option<String>)
    ensures
        match t {
            Some(tok) => starts_with(header@, "Bearer "@) && tok@ == header@.skip(7),
            None => !starts_with(header@, "Bearer "@),
        },
{
    let h = chars_of(header);
    assert(h@.subrange(0, h@.len() as int) =~= header@);
    let prefix = chars_of("Bearer ");
    proof {
        reveal_strlit("Bearer ");
    }
    if starts_with_in(&h, 0, h.len(), &prefix) {
        assert(h@.subrange(7, h@.len() as int) =~= header@.skip(7));
        Some(string_of_range(&h, 7, h.len()))
    } else {
        None
    }
}

// ───────────────────────── fallback routing ─────────────────────────

/// `rest.splitn(3, '/')` when it yields at least two parts: the first two parts
/// and the remainder (empty when there is no third part).
pub open spec fn split_owner_repo(rest: Seq<char>) -> Option<(Seq<char>, Seq<char>, Seq<char>)> {
    match find_char(rest, '/') {
        None => None,
        Some(i) => {
            let r2 = rest.skip(i + 1);
            match find_char(r2, '/') {
                Some(j) => Some((rest.take(i), r2.take(j), r2.skip(j + 1))),
                None => Some((rest.take(i), r2, Seq::empty())),
            }
        },
    }
}

/// Where the fallback handler sends a request path.
#[derive(Debug)]
pub enum Route {
    /// Git smart HTTP under `/git/{owner}/{repo}/...`
    Git { owner: String, repo: String, subpath: String },
    /// A published site under `/pages/{owner}/{repo}/...`
    Pages { owner: String, repo: String, subpath: String },
    /// A running app under `/app/{owner}/{repo}/...`
    App { owner: String, repo: String, subpath: String },
    /// Everything else: the front end's static files.
    Static,
}

pub open spec fn route_parts(prefix: Seq<char>, path: Seq<char>) -> Option<
    (Seq<char>, Seq<char>, Seq<char>),
> {
    if starts_with(path, prefix) {
        split_owner_repo(path.skip(prefix.len() as int))
    } else {
        None
    }
}

/// The route of a path: the first of `/git/`, `/pages/`, `/app/` whose prefix
/// matches and is followed by at least `owner/repo`.
pub open spec fn route_spec(path: Seq<char>) -> (u8, Option<(Seq<char>, Seq<char>, Seq<char>)>) {
    if route_parts("/git/"@, path) is Some {
        (0, route_parts("/git/"@, path))
    } else if route_parts("/pages/"@, path) is Some {
        (1, route_parts("/pages/"@, path))
    } else if route_parts("/app/"@, path) is Some {
        (2, route_parts("/app/"@, path))
    } else {
        (3, None)
    }
}

pub open spec fn route_view(r: Route) -> (u8, Option<(Seq<char>, Seq<char>, Seq<char>)>) {
    match r {
        Route::Git { owner, repo, subpath } => (0, Some((owner@, repo@, subpath@))),
        Route::Pages { owner, repo, subpath } => (1, Some((owner@, repo@, subpath@))),
        Route::App { owner, repo, subpath } => (2, Some((owner@, repo@, subpath@))),
        Route::Static => (3, None),
    }
}

/// The parts after `prefix` in `p`, when `p` starts with it.
fn parts_after(p: &Vec<char>, prefix: &str) -> (r: Option<(String, String, String)>)
    ensures
        match r {
            Some(t) => route_parts(prefix@, p@) == Some((t.0@, t.1@, t.2@)),
            None => route_parts(prefix@, p@) is None,
        },
{
    let pre = chars_of(prefix);
    assert(p@.subrange(0, p@.len() as int) =~= p@);
    if !starts_with_in(p, 0, p.len(), &pre) {
        return None;
    }
    let a = pre.len();
    let ghost rest = p@.skip(a as int);
    assert(p@.subrange(a as int, p@.len() as int) =~= rest);
    match find_char_in(p, a, p.len(), '/') {
        None => None,
        Some(i) => {
            proof {
                lemma_find_char(rest, '/');
                assert(rest.take(i as int) =~= p@.subrange(a as int, a + i));
                assert(rest.skip(i + 1) =~= p@.subrange(a + i + 1, p@.len() as int));
            }
            let owner = string_of_range(p, a, a + i);
            let b = a + i + 1;
            let ghost r2 = rest.skip(i + 1);
            match find_char_in(p, b, p.len(), '/') {
                Some(j) => {
                    proof {
                        lemma_find_char(r2, '/');
                        assert(r2.take(j as int) =~= p@.subrange(b as int, b + j));
                        assert(r2.skip(j + 1) =~= p@.subrange(b + j + 1, p@.len() as int));
                    }
                    let repo = string_of_range(p, b, b + j);
                    let sub = string_of_range(p, b + j + 1, p.len());
                    Some((owner, repo, sub))
                },
                None => {
                    let repo = string_of_range(p, b, p.len());
                    Some((owner, repo, String::new()))
                },
            }
        },
    }
}

/// Classifies a path for the fallback handler.
pub fn route_of(path: &str) -> (r: Route)
    ensures
        route_view(r) == route_spec(path@),
{
    let p = chars_of(path);
    if let Some((owner, repo, subpath)) = parts_after(&p, "/git/") {
        return Route::Git { owner, repo, subpath };
    }
    if let Some((owner, repo, subpath)) = parts_after(&p, "/pages/") {
        return Route::Pages { owner, repo, subpath };
    }
    if let Some((owner, repo, subpath)) = parts_after(&p, "/app/") {
        return Route::App { owner, repo, subpath };
    }
    Route::Static
}

/// `PATH_INFO` handed to `git http-backend`: `/{owner}/{repo}.git/{subpath}`,
/// relative to `git_project_root`.
pub fn git_path_info(owner: &str, repo: &str, subpath: &str) -> (s: String)
    ensures
        s@ == git_path_info_spec(owner@, repo@, subpath@),
{
    let mut s = concat2("/", owner);
    s.append("/");
    s.append(repo);
    s.append(".git/");
    s.append(subpath);
    s
}

/// A `PATH_INFO` always starts with a slash.
pub fn cgi_path_info(path_info: &str) -> (s: String)
    ensures
        s@ == if starts_with(path_info@, "/"@) {
            path_info@
        } else {
            "/"@ + path_info@
        },
{
    let p = chars_of(path_info);
    assert(p@.subrange(0, p@.len() as int) =~= path_info@);
    let slash = chars_of("/");
    if starts_with_in(&p, 0, p.len(), &slash) {
        path_info.to_string()
    } else {
        concat2("/", path_info)
    }
}

/// A push is a POST of a receive-pack request.
pub fn is_push_request(content_type: Option<&str>) -> (b: bool)
    ensures
        b == (content_type matches Some(ct) && ct@ == "application/x-git-receive-pack-request"@),
{
    match content_type {
        Some(ct) => str_eq(ct, "application/x-git-receive-pack-request"),
        None => false,
    }
}

/// The directory a site is served from: the one its Pages deploy writes to
/// (`Config::pages_dir`), `{base}/repos/{owner}/{repo}/pages`.
pub fn served_pages_dir(base: &str, owner: &str, repo: &str) -> (s: String)
    ensures
        s@ == pages_dir_spec(base@, owner@, repo@),
{
    let mut s = concat2(base, "/repos/");
    s.append(owner);
    s.append("/");
    s.append(repo);
    s.append("/pages");
    s
}

/// The `GIT_PROJECT_ROOT` handed to `git http-backend`: the directory that
/// holds the bare repositories, `{base}/repos`.
pub fn git_project_root(base: &str) -> (s: String)
    ensures
        s@ == git_project_root_spec(base@),
{
    concat2(base, "/repos")
}

pub open spec fn git_project_root_spec(base: Seq<char>) -> Seq<char> {
    base + "/repos"@
}

pub open spec fn git_path_info_spec(owner: Seq<char>, repo: Seq<char>, subpath: Seq<char>) -> Seq<char> {
    "/"@ + owner + "/"@ + repo + ".git/"@ + subpath
}

// ───────────────────────── laws ─────────────────────────

/// `{owner}/{repo}/{subpath}` splits into exactly those parts when neither
/// name holds a `/`.
proof fn lemma_split_owner_repo(owner: Seq<char>, repo: Seq<char>, subpath: Seq<char>)
    requires
        !has_char(owner, '/'),
        !has_char(repo, '/'),
    ensures
        split_owner_repo(owner + "/"@ + repo + "/"@ + subpath) == Some((owner, repo, subpath)),
{
    reveal_strlit("/");
    let rest = owner + "/"@ + repo + "/"@ + subpath;
    let n = owner.len() as int;
    assert(rest[n] == '/');
    assert forall|j: int| 0 <= j < n implies rest[j] != '/' by {
        assert(rest[j] == owner[j]);
    }
    lemma_find_char_is(rest, '/', n);
    let r2 = rest.skip(n + 1);
    assert(r2 =~= repo + "/"@ + subpath);
    let m = repo.len() as int;
    assert(r2[m] == '/');
    assert forall|j: int| 0 <= j < m implies r2[j] != '/' by {
        assert(r2[j] == repo[j]);
    }
    lemma_find_char_is(r2, '/', m);
    assert(rest.take(n) =~= owner);
    assert(r2.take(m) =~= repo);
    assert(r2.skip(m + 1) =~= subpath);
}

/// A request for `/pages/{owner}/{repo}/{subpath}` is routed to that site, so
/// it is served from `pages_dir_spec` of that owner and repository: the
/// directory its Pages deploy writes to.
pub proof fn lemma_pages_served_where_deployed(owner: Seq<char>, repo: Seq<char>, subpath: Seq<char>)
    requires
        !has_char(owner, '/'),
        !has_char(repo, '/'),
    ensures
        route_spec("/pages/"@ + owner + "/"@ + repo + "/"@ + subpath) == (1u8, Some((owner, repo, subpath))),
{
    reveal_strlit("/pages/");
    reveal_strlit("/git/");
    let rest = owner + "/"@ + repo + "/"@ + subpath;
    let path = "/pages/"@ + rest;
    assert(path =~= "/pages/"@ + owner + "/"@ + repo + "/"@ + subpath);
    assert(path[1] == 'p');
    assert(!starts_with(path, "/git/"@)) by {
        if starts_with(path, "/git/"@) {
            assert(path.take(5)[1] == "/git/"@[1]);
        }
    }
    assert(path.take(7) =~= "/pages/"@);
    assert(path.skip(7) =~= rest);
    lemma_split_owner_repo(owner, repo, subpath);
}

/// A request for `/git/{owner}/{repo}/{subpath}` is routed to that repository,
/// and `git http-backend`, given `git_project_root` and `git_path_info` (which
/// already starts with `/`, so `cgi_path_info` keeps it), opens
/// `{subpath}` inside the bare repository at `repo_path_spec`: the one whose
/// existence was checked.
pub proof fn lemma_git_backend_opens_checked_repo(
    base: Seq<char>,
    owner: Seq<char>,
    repo: Seq<char>,
    subpath: Seq<char>,
)
    requires
        !has_char(owner, '/'),
        !has_char(repo, '/'),
    ensures
        route_spec("/git/"@ + owner + "/"@ + repo + "/"@ + subpath) == (0u8, Some((owner, repo, subpath))),
        starts_with(git_path_info_spec(owner, repo, subpath), "/"@),
        git_project_root_spec(base) + git_path_info_spec(owner, repo, subpath) == repo_path_spec(base, owner, repo)
            + "/"@ + subpath,
{
    reveal_strlit("/git/");
    reveal_strlit("/");
    reveal_strlit("/repos");
    reveal_strlit("/repos/");
    reveal_strlit(".git/");
    reveal_strlit(".git");
    let rest = owner + "/"@ + repo + "/"@ + subpath;
    let path = "/git/"@ + rest;
    assert(path =~= "/git/"@ + owner + "/"@ + repo + "/"@ + subpath);
    assert(path.take(5) =~= "/git/"@);
    assert(path.skip(5) =~= rest);
    lemma_split_owner_repo(owner, repo, subpath);
    assert(git_path_info_spec(owner, repo, subpath).take(1) =~= "/"@);
    assert(git_project_root_spec(base) + git_path_info_spec(owner, repo, subpath) =~= repo_path_spec(
        base,
        owner,
        repo,
    ) + "/"@ + subpath);
}

/// Where a request to a running app is forwarded.
pub fn app_proxy_url(port: u16, subpath: &str) -> (s: String)
    ensures
        s@ == "http://127.0.0.1:"@ + decimal(port as nat) + "/"@ + subpath@,
{
    let mut s = "http://127.0.0.1:".to_string();
    let n = u64_to_string(port as u64);
    s.append(n.as_str());
    s.append("/");
    s.append(subpath);
    s
}

/// The single-page front end answers with `index.html` for paths without a dot.
pub fn spa_fallback_allowed(path: &str) -> (b: bool)
    ensures
        b == !has_char(path@, '.'),
{
    let p = chars_of(path);
    assert(p@.subrange(0, p@.len() as int) =~= path@);
    match find_char_in(&p, 0, p.len(), '.') {
        Some(i) => {
            proof {
                lemma_find_char(path@, '.');
            }
            false
        },
        None => {
            proof {
                lemma_find_char(path@, '.');
            }
            true
        },
    }
}

} // verus!
