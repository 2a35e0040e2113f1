//! Requests to the API and the values the server settles on for them:
//! defaults for what was left out, paging limits, and what an update changes.
use vstd::prelude::*;
use crate::errors::AppError;
use crate::models::{CreateRepoRequest, PagesConfig, Repository};
use crate::text::str_eq;

verus! {

broadcast use vstd::string::group_string_axioms;

// ───────────────────────── repositories ─────────────────────────

/// A repository search.
pub struct SearchQuery {
    pub q: String,
    pub page: Option<i64>,
    pub page_size: Option<i64>,
}

/// The page asked for (at least 1, default 1) and its size (1 to 100, default 20).
pub open spec fn search_paging_spec(page: Option<i64>, page_size: Option<i64>) -> (i64, i64) {
    let p = match page {
        Some(p) => if p < 1 {
            1
        } else {
            p
        },
        None => 1,
    };
    let s = match page_size {
        Some(s) => if s < 1 {
            1
        } else if s > 100 {
            100
        } else {
            s
        },
        None => 20,
    };
    (p, s)
}

/// The page asked for is the page given, when it is at least 1; a page below
/// 1 or none at all gives the first page. A page size from 1 to 100 is kept as
/// asked; a smaller one gives 1, a larger one 100, none at all 20.
pub proof fn lemma_search_paging_keeps_the_request(page: Option<i64>, page_size: Option<i64>)
    ensures
        page is Some && page->0 >= 1 ==> search_paging_spec(page, page_size).0 == page->0,
        !(page is Some && page->0 >= 1) ==> search_paging_spec(page, page_size).0 == 1,
        page_size is Some && 1 <= page_size->0 <= 100 ==> search_paging_spec(page, page_size).1
            == page_size->0,
        page_size is Some && page_size->0 < 1 ==> search_paging_spec(page, page_size).1 == 1,
        page_size is Some && page_size->0 > 100 ==> search_paging_spec(page, page_size).1 == 100,
        page_size is None ==> search_paging_spec(page, page_size).1 == 20,
{
}

/// The paging of a search.
pub fn search_paging(q: &SearchQuery) -> (r: (i64, i64))
    ensures
        r == search_paging_spec(q.page, q.page_size),
        r.0 >= 1,
        1 <= r.1 <= 100,
{
    let page = match q.page {
        Some(p) => if p < 1 {
            1
        } else {
            p
        },
        None => 1,
    };
    let size = match q.page_size {
        Some(s) => if s < 1 {
            1
        } else if s > 100 {
            100
        } else {
            s
        },
        None => 20,
    };
    (page, size)
}

/// The `LIKE` pattern for a search: the query anywhere in the text.
pub fn search_pattern(q: &SearchQuery) -> (p: String)
    ensures
        p@ == "%"@ + q.q@ + "%"@,
{
    let mut p = String::from_str("%");
    p.append(q.q.as_str());
    p.append("%");
    p
}

/// How many results come before the page.
pub fn search_offset(page: i64, page_size: i64) -> (o: i64)
    requires
        page >= 1,
        page_size >= 1,
        (page - 1) * page_size <= i64::MAX,
    ensures
        o == (page - 1) * page_size,
{
    assert((page - 1) * page_size >= 0) by (nonlinear_arith)
        requires
            page >= 1,
            page_size >= 1,
    ;
    (page - 1) * page_size
}

/// Changes to a repository.
pub struct UpdateRepoRequest {
    pub name: Option<String>,
    pub description: Option<String>,
    pub is_private: Option<bool>,
}

/// What an update writes: the name (as given, else the current one), the
/// description and visibility (given, else current), and the new name under
/// which the stored files move, when a different non-empty one was given.
pub struct RepoUpdate {
    pub name: String,
    pub description: String,
    pub is_private: bool,
    pub rename_to: Option<String>,
}

/// Settles an update request against the repository's current settings.
pub fn plan_repo_update(repo: &Repository, req: &UpdateRepoRequest) -> (u: RepoUpdate)
    ensures
        u.name@ == match req.name {
            Some(n) => n@,
            None => repo.name@,
        },
        u.description@ == match req.description {
            Some(d) => d@,
            None => repo.description@,
        },
        u.is_private == match req.is_private {
            Some(b) => b,
            None => repo.is_private,
        },
        match u.rename_to {
            Some(n) => req.name matches Some(m) && n@ == m@ && m@.len() > 0 && m@ != repo.name@,
            None => !(req.name matches Some(m) && m@.len() > 0 && m@ != repo.name@),
        },
{
    let name = match &req.name {
        Some(n) => n.clone(),
        None => repo.name.clone(),
    };
    let description = match &req.description {
        Some(d) => d.clone(),
        None => repo.description.clone(),
    };
    let is_private = match req.is_private {
        Some(b) => b,
        None => repo.is_private,
    };
    let rename_to = match &req.name {
        Some(n) => if !n.as_str().is_empty() && !str_eq(n.as_str(), repo.name.as_str()) {
            Some(n.clone())
        } else {
            None
        },
        None => None,
    };
    RepoUpdate { name, description, is_private, rename_to }
}

/// A new repository needs a name; it is public and undescribed unless asked.
pub fn new_repo_settings(req: &CreateRepoRequest) -> (r: Result<(String, bool), AppError>)
    ensures
        r is Ok <==> req.name@.len() > 0,
        r matches Err(e) ==> e is BadRequest && e.msg() == "倉庫名稱不能為空"@,
        r matches Ok((d, p)) ==> d@ == match req.description {
            Some(x) => x@,
            None => Seq::<char>::empty(),
        } && p == match req.is_private {
            Some(b) => b,
            None => false,
        },
{
    if req.name.as_str().is_empty() {
        return Err(AppError::BadRequest(String::from_str("倉庫名稱不能為空")));
    }
    let description = match &req.description {
        Some(d) => d.clone(),
        None => String::new(),
    };
    let is_private = match req.is_private {
        Some(b) => b,
        None => false,
    };
    Ok((description, is_private))
}

/// A new repository's name must be free where it is created: within the
/// organization, or among the user's own repositories.
pub fn check_repo_name_free(taken: bool, in_org: bool) -> (r: Result<(), AppError>)
    ensures
        r is Ok <==> !taken,
        r matches Err(e) ==> e is BadRequest && e.msg() == if in_org {
            "組織內已有同名倉庫"@
        } else {
            "已有同名倉庫"@
        },
{
    if taken {
        if in_org {
            return Err(AppError::BadRequest(String::from_str("組織內已有同名倉庫")));
        }
        return Err(AppError::BadRequest(String::from_str("已有同名倉庫")));
    }
    Ok(())
}

/// A new organization's name must not belong to another organization, nor
/// to a user.
pub fn check_org_name_free(org_exists: bool, user_exists: bool) -> (r: Result<(), AppError>)
    ensures
        r is Ok <==> !org_exists && !user_exists,
        org_exists ==> (r matches Err(e) && e is Conflict && e.msg() == "組織名稱已存在"@),
        !org_exists && user_exists ==> (r matches Err(e) && e is Conflict && e.msg()
            == "該名稱已被使用者使用"@),
{
    if org_exists {
        return Err(AppError::Conflict(String::from_str("組織名稱已存在")));
    }
    if user_exists {
        return Err(AppError::Conflict(String::from_str("該名稱已被使用者使用")));
    }
    Ok(())
}

// ───────────────────────── settings ─────────────────────────

/// A new personal access token.
pub struct CreateTokenRequest {
    pub name: String,
    pub scopes: Option<String>,
    pub expires_at: Option<String>,
}

/// The scopes a new token gets: as asked, else `repo`.
pub fn token_scopes(req: &CreateTokenRequest) -> (s: String)
    ensures
        s@ == match req.scopes {
            Some(x) => x@,
            None => "repo"@,
        },
{
    match &req.scopes {
        Some(x) => x.clone(),
        None => String::from_str("repo"),
    }
}

/// A new collaborator.
pub struct AddCollaboratorRequest {
    pub username: String,
    pub permission: Option<String>,
}

/// The permission a collaborator gets: as asked, else `write`.
pub fn collaborator_permission(req: &AddCollaboratorRequest) -> (s: String)
    ensures
        s@ == match req.permission {
            Some(x) => x@,
            None => "write"@,
        },
{
    match &req.permission {
        Some(x) => x.clone(),
        None => String::from_str("write"),
    }
}

/// The access token to revoke.
pub struct DeleteTokenPath {
    pub token_id: i64,
}

/// The collaborator to remove from a repository.
pub struct RemoveCollaboratorPath {
    pub repo_id: i64,
    pub user_id: i64,
}

/// The secret of a repository to delete.
pub struct SecretIdPath {
    pub repo_id: i64,
    pub secret_id: i64,
}

/// The branch protection rule of a repository to delete.
pub struct BranchProtectionIdPath {
    pub repo_id: i64,
    pub protection_id: i64,
}

/// A fork request; the fork always goes to the requesting user.
pub struct ForkRequest {
    pub owner_name: String,
}

/// A new secret.
pub struct CreateSecretRequest {
    pub name: String,
    pub value: String,
}

/// A new branch protection rule.
pub struct CreateBranchProtectionRequest {
    pub pattern: String,
    pub require_pr: Option<bool>,
    pub require_approvals: Option<i64>,
    pub dismiss_stale_reviews: Option<bool>,
}

/// The rule's settings: each as asked, else pull requests required, one
/// approval, stale reviews dismissed.
pub fn branch_protection_settings(req: &CreateBranchProtectionRequest) -> (r: (bool, i64, bool))
    ensures
        r.0 == match req.require_pr {
            Some(b) => b,
            None => true,
        },
        r.1 == match req.require_approvals {
            Some(n) => n,
            None => 1,
        },
        r.2 == match req.dismiss_stale_reviews {
            Some(b) => b,
            None => true,
        },
{
    let a = match req.require_pr {
        Some(b) => b,
        None => true,
    };
    let b = match req.require_approvals {
        Some(n) => n,
        None => 1,
    };
    let c = match req.dismiss_stale_reviews {
        Some(x) => x,
        None => true,
    };
    (a, b, c)
}

/// A deletion that found nothing to delete answers `NotFound`.
pub fn check_deleted(deleted: bool, message: &str) -> (r: Result<(), AppError>)
    ensures
        r is Ok <==> deleted,
        r matches Err(e) ==> e is NotFound && e.msg() == message@,
{
    if !deleted {
        return Err(AppError::NotFound(String::from_str(message)));
    }
    Ok(())
}

// ───────────────────────── hosting settings ─────────────────────────

/// Pages settings sent by the owner.
pub struct UpdatePagesConfig {
    pub branch: Option<String>,
    pub source_dir: Option<String>,
    pub custom_domain: Option<String>,
    pub enabled: Option<bool>,
}

/// Pages settings with their defaults filled in.
pub struct PagesSettings {
    pub branch: String,
    pub source_dir: String,
    pub custom_domain: String,
    pub enabled: bool,
}

/// Branch `main`, source `/`, no custom domain, disabled, unless given.
pub fn pages_settings(req: &UpdatePagesConfig) -> (s: PagesSettings)
    ensures
        s.branch@ == match req.branch {
            Some(x) => x@,
            None => "main"@,
        },
        s.source_dir@ == match req.source_dir {
            Some(x) => x@,
            None => "/"@,
        },
        s.custom_domain@ == match req.custom_domain {
            Some(x) => x@,
            None => Seq::<char>::empty(),
        },
        s.enabled == match req.enabled {
            Some(b) => b,
            None => false,
        },
{
    PagesSettings {
        branch: match &req.branch {
            Some(x) => x.clone(),
            None => String::from_str("main"),
        },
        source_dir: match &req.source_dir {
            Some(x) => x.clone(),
            None => String::from_str("/"),
        },
        custom_domain: match &req.custom_domain {
            Some(x) => x.clone(),
            None => String::new(),
        },
        enabled: match req.enabled {
            Some(b) => b,
            None => false,
        },
    }
}

/// App hosting settings sent by the owner.
pub struct UpdateAppsConfig {
    pub branch: Option<String>,
    pub source_dir: Option<String>,
    pub build_command: Option<String>,
    pub start_command: Option<String>,
    pub env_vars: Option<String>,
    pub enabled: Option<bool>,
}

/// App hosting settings with their defaults filled in.
pub struct AppsSettings {
    pub branch: String,
    pub source_dir: String,
    pub build_command: String,
    pub start_command: String,
    pub env_vars: String,
    pub enabled: bool,
}

/// Branch `main`, source `/`, commands left to detection, no extra
/// environment (`{}`), disabled, unless given.
pub fn apps_settings(req: &UpdateAppsConfig) -> (s: AppsSettings)
    ensures
        s.branch@ == match req.branch {
            Some(x) => x@,
            None => "main"@,
        },
        s.source_dir@ == match req.source_dir {
            Some(x) => x@,
            None => "/"@,
        },
        s.build_command@ == match req.build_command {
            Some(x) => x@,
            None => Seq::<char>::empty(),
        },
        s.start_command@ == match req.start_command {
            Some(x) => x@,
            None => Seq::<char>::empty(),
        },
        s.env_vars@ == match req.env_vars {
            Some(x) => x@,
            None => "{}"@,
        },
        s.enabled == match req.enabled {
            Some(b) => b,
            None => false,
        },
{
    AppsSettings {
        branch: match &req.branch {
            Some(x) => x.clone(),
            None => String::from_str("main"),
        },
        source_dir: match &req.source_dir {
            Some(x) => x.clone(),
            None => String::from_str("/"),
        },
        build_command: match &req.build_command {
            Some(x) => x.clone(),
            None => String::new(),
        },
        start_command: match &req.start_command {
            Some(x) => x.clone(),
            None => String::new(),
        },
        env_vars: match &req.env_vars {
            Some(x) => x.clone(),
            None => String::from_str("{}"),
        },
        enabled: match req.enabled {
            Some(b) => b,
            None => false,
        },
    }
}

/// The branch and source directory a manual Pages deploy uses: the stored
/// settings, else `main` and `/`.
pub fn pages_deploy_source(cfg: &Option<PagesConfig>) -> (r: (String, String))
    ensures
        match cfg {
            Some(c) => r.0@ == c.branch@ && r.1@ == c.source_dir@,
            None => r.0@ == "main"@ && r.1@ == "/"@,
        },
{
    match cfg {
        Some(c) => (c.branch.clone(), c.source_dir.clone()),
        None => (String::from_str("main"), String::from_str("/")),
    }
}

// ───────────────────────── organizations ─────────────────────────

/// A new organization.
pub struct CreateOrgRequest {
    pub name: String,
    pub display_name: Option<String>,
    pub description: Option<String>,
}

/// The display name (default: the name) and description (default: empty) of a
/// new organization.
pub fn org_profile(req: &CreateOrgRequest) -> (r: (String, String))
    ensures
        r.0@ == match req.display_name {
            Some(x) => x@,
            None => req.name@,
        },
        r.1@ == match req.description {
            Some(x) => x@,
            None => Seq::<char>::empty(),
        },
{
    let d = match &req.display_name {
        Some(x) => x.clone(),
        None => req.name.clone(),
    };
    let desc = match &req.description {
        Some(x) => x.clone(),
        None => String::new(),
    };
    (d, desc)
}

/// A new member of an organization.
pub struct AddMemberRequest {
    pub username: String,
    pub role: Option<String>,
}

/// The role a new member gets: as asked, else `member`.
pub fn member_role(req: &AddMemberRequest) -> (s: String)
    ensures
        s@ == match req.role {
            Some(x) => x@,
            None => "member"@,
        },
{
    match &req.role {
        Some(x) => x.clone(),
        None => String::from_str("member"),
    }
}

/// A new SSH key.
pub struct AddSshKeyRequest {
    pub name: String,
    pub public_key: String,
}

} // verus!
