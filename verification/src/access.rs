//! Who may read or change what, and the checks on submitted names and texts.
use vstd::prelude::*;
use vstd::utf8::encode_utf8;
use crate::errors::AppError;
use crate::models::{Organization, OrganizationMember, Repository, User};
use crate::text::{chars_of, str_eq, utf8_len};

verus! {

broadcast use vstd::string::group_string_axioms;

// ───────────────────────── repositories ─────────────────────────

/// A public repository is readable by anyone; a private one of a user only by
/// that user, and a private one of an organization only by its members.
pub open spec fn may_read_spec(repo: Repository, auth: Option<i64>, org_members: Option<Seq<i64>>) -> bool {
    !repo.is_private || match org_members {
        None => auth == Some(repo.user_id),
        Some(ms) => auth matches Some(uid) && ms.contains(uid),
    }
}

/// Whether `members` contains `uid`.
fn contains_id(members: &Vec<i64>, uid: i64) -> (b: bool)
    ensures
        b == members@.contains(uid),
{
    let mut i: usize = 0;
    while i < members.len()
        invariant
            i <= members.len(),
            forall|j: int| 0 <= j < i ==> members@[j] != uid,
        decreases members.len() - i,
    {
        if members[i] == uid {
            assert(members@[i as int] == uid);
            return true;
        }
        i = i + 1;
    }
    false
}

/// Read access to a repository found under a user (`org_members` is `None`) or
/// under an organization (`org_members` lists the ids of its members).
pub fn check_repo_read(repo: &Repository, auth: Option<i64>, org_members: Option<&Vec<i64>>) -> (r:
    Result<(), AppError>)
    ensures
        r is Ok <==> may_read_spec(
            *repo,
            auth,
            match org_members {
                Some(m) => Some(m@),
                None => None,
            },
        ),
        r matches Err(e) ==> e is Unauthorized && e.msg() == "私有倉庫"@,
{
    if !repo.is_private {
        return Ok(());
    }
    let ok = match org_members {
        None => match auth {
            Some(uid) => uid == repo.user_id,
            None => false,
        },
        Some(ms) => match auth {
            Some(uid) => contains_id(ms, uid),
            None => false,
        },
    };
    if ok {
        Ok(())
    } else {
        Err(AppError::Unauthorized("私有倉庫".to_string()))
    }
}

/// The repository belongs to an organization.
pub open spec fn is_org_repo(repo: Repository) -> bool {
    repo.owner_type@ == "org"@
}

/// Deleting or changing a repository: for an organization's repository, an
/// admin member or its creator among the members; otherwise its owner.
pub open spec fn may_manage_spec(repo: Repository, user_id: i64, members: Seq<(OrganizationMember, User)>) -> bool {
    if is_org_repo(repo) && repo.org_id is Some {
        exists|i: int|
            0 <= i < members.len() && members[i].1.id == user_id && (members[i].0.role@ == "admin"@
                || members[i].1.id == repo.user_id)
    } else {
        repo.user_id == user_id
    }
}

pub fn may_manage_repo(repo: &Repository, user_id: i64, members: &Vec<(OrganizationMember, User)>) -> (b:
    bool)
    ensures
        b == may_manage_spec(*repo, user_id, members@),
{
    if str_eq(repo.owner_type.as_str(), "org") && repo.org_id.is_some() {
        let mut i: usize = 0;
        while i < members.len()
            invariant
                i <= members.len(),
                is_org_repo(*repo) && repo.org_id is Some,
                forall|j: int|
                    0 <= j < i ==> !(members@[j].1.id == user_id && (members@[j].0.role@ == "admin"@
                        || members@[j].1.id == repo.user_id)),
            decreases members.len() - i,
        {
            let (m, u) = &members[i];
            if u.id == user_id && (str_eq(m.role.as_str(), "admin") || u.id == repo.user_id) {
                assert(members@[i as int].1.id == user_id && (members@[i as int].0.role@ == "admin"@
                    || members@[i as int].1.id == repo.user_id));
                assert(is_org_repo(*repo) && repo.org_id is Some);
                return true;
            }
            i = i + 1;
        }
        false
    } else {
        repo.user_id == user_id
    }
}

/// Who may delete or change a repository. For an organization's repository:
/// a member listed as admin may; the user who created it may whatever role
/// they are listed with; a user who is not listed among the members may not.
/// For any other repository: its owner and nobody else.
pub proof fn lemma_who_may_manage(repo: Repository, user_id: i64, members: Seq<(OrganizationMember, User)>)
    ensures
        repo.owner_type@ == "org"@ && repo.org_id is Some ==> {
            &&& (exists|i: int|
                0 <= i < members.len() && #[trigger] members[i].1.id == user_id && members[i].0.role@
                    == "admin"@) ==> may_manage_spec(repo, user_id, members)
            &&& (user_id == repo.user_id && exists|i: int|
                0 <= i < members.len() && #[trigger] members[i].1.id == user_id) ==> may_manage_spec(
                repo,
                user_id,
                members,
            )
            &&& (forall|i: int| 0 <= i < members.len() ==> #[trigger] members[i].1.id != user_id)
                ==> !may_manage_spec(repo, user_id, members)
        },
        !(repo.owner_type@ == "org"@ && repo.org_id is Some) ==> (may_manage_spec(repo, user_id, members)
            <==> repo.user_id == user_id),
{
}

/// Issues, labels and pull requests: the owner, or anyone on an organization's repository.
pub fn may_write_repo(repo: &Repository, user_id: i64) -> (b: bool)
    ensures
        b == (repo.user_id == user_id || is_org_repo(*repo)),
{
    repo.user_id == user_id || str_eq(repo.owner_type.as_str(), "org")
}

/// Whose name a repository lives under.
#[derive(Debug, Clone, Copy, PartialEq, Eq)]
pub enum OwnerRef {
    Org(i64),
    User(i64),
}

/// An organization's repository is filed under the organization (when it has
/// one); every other repository under its user.
pub fn owner_of_repo(repo: &Repository) -> (o: OwnerRef)
    ensures
        o == if is_org_repo(*repo) && repo.org_id is Some {
            OwnerRef::Org(repo.org_id->0)
        } else {
            OwnerRef::User(repo.user_id)
        },
{
    if str_eq(repo.owner_type.as_str(), "org") {
        if let Some(oid) = repo.org_id {
            return OwnerRef::Org(oid);
        }
    }
    OwnerRef::User(repo.user_id)
}

/// A fork is refused when the user already forked the source, or already has
/// a repository of that name.
pub fn check_fork(user_repos: &Vec<Repository>, source: &Repository) -> (r: Result<(), AppError>)
    ensures
        r is Ok <==> (forall|i: int| 0 <= i < user_repos@.len() ==> user_repos@[i].forked_from != Some(source.id))
            && (forall|i: int| 0 <= i < user_repos@.len() ==> user_repos@[i].name@ != source.name@),
        (exists|i: int| 0 <= i < user_repos@.len() && user_repos@[i].forked_from == Some(source.id))
            ==> (r matches Err(e) && e is BadRequest && e.msg() == "已經 Fork 過此倉庫"@),
        (forall|i: int| 0 <= i < user_repos@.len() ==> user_repos@[i].forked_from != Some(source.id))
            && (exists|i: int| 0 <= i < user_repos@.len() && user_repos@[i].name@ == source.name@)
            ==> (r matches Err(e) && e is BadRequest && e.msg() == "已有同名倉庫"@),
{
    let mut i: usize = 0;
    while i < user_repos.len()
        invariant
            i <= user_repos.len(),
            forall|j: int| 0 <= j < i ==> user_repos@[j].forked_from != Some(source.id),
        decreases user_repos.len() - i,
    {
        if user_repos[i].forked_from == Some(source.id) {
            return Err(AppError::BadRequest("已經 Fork 過此倉庫".to_string()));
        }
        i = i + 1;
    }
    let mut k: usize = 0;
    while k < user_repos.len()
        invariant
            k <= user_repos.len(),
            forall|j: int| 0 <= j < k ==> user_repos@[j].name@ != source.name@,
            forall|j: int| 0 <= j < user_repos@.len() ==> user_repos@[j].forked_from != Some(source.id),
        decreases user_repos.len() - k,
    {
        if str_eq(user_repos[k].name.as_str(), source.name.as_str()) {
            return Err(AppError::BadRequest("已有同名倉庫".to_string()));
        }
        k = k + 1;
    }
    Ok(())
}

// ───────────────────────── organizations ─────────────────────────

/// The role of `user_id` in the member list (empty when not a member): that of
/// the first entry for the user.
pub open spec fn role_spec(members: Seq<(OrganizationMember, User)>, user_id: i64) -> Seq<char>
    decreases members.len(),
{
    if members.len() == 0 {
        Seq::empty()
    } else if members[0].1.id == user_id {
        members[0].0.role@
    } else {
        role_spec(members.drop_first(), user_id)
    }
}

/// A user's role is the role of the first member entry with their id; a user
/// with no entry has the empty role (and so is no admin).
pub proof fn lemma_role_is_first_entry(members: Seq<(OrganizationMember, User)>, user_id: i64, i: int)
    requires
        0 <= i < members.len(),
        members[i].1.id == user_id,
        forall|j: int| 0 <= j < i ==> members[j].1.id != user_id,
    ensures
        role_spec(members, user_id) == members[i].0.role@,
    decreases i,
{
    if i > 0 {
        assert(members[0].1.id != user_id);
        assert forall|j: int| 0 <= j < i - 1 implies members.drop_first()[j].1.id != user_id by {
            assert(members.drop_first()[j] == members[j + 1]);
        }
        lemma_role_is_first_entry(members.drop_first(), user_id, i - 1);
    }
}

/// A user with no member entry has the empty role.
pub proof fn lemma_role_of_non_member(members: Seq<(OrganizationMember, User)>, user_id: i64)
    requires
        forall|j: int| 0 <= j < members.len() ==> members[j].1.id != user_id,
    ensures
        role_spec(members, user_id) == Seq::<char>::empty(),
    decreases members.len(),
{
    if members.len() > 0 {
        assert forall|j: int| 0 <= j < members.len() - 1 implies members.drop_first()[j].1.id != user_id by {
            assert(members.drop_first()[j] == members[j + 1]);
        }
        lemma_role_of_non_member(members.drop_first(), user_id);
    }
}

/// Who may read a repository: anyone when it is public; when it is private,
/// for a user's repository only its owner, for an organization's repository
/// only a signed-in member.
pub proof fn lemma_who_may_read(repo: Repository, auth: Option<i64>, org_members: Option<Seq<i64>>)
    ensures
        !repo.is_private ==> may_read_spec(repo, auth, org_members),
        repo.is_private && org_members is None ==> (may_read_spec(repo, auth, org_members) <==> auth
            == Some(repo.user_id)),
        repo.is_private && org_members is Some ==> (may_read_spec(repo, auth, org_members) <==> (auth is Some
            && org_members->0.contains(auth->0))),
        repo.is_private && auth is None ==> !may_read_spec(repo, auth, org_members),
{
}

pub fn org_role(members: &Vec<(OrganizationMember, User)>, user_id: i64) -> (role: String)
    ensures
        role@ == role_spec(members@, user_id),
{
    let mut i: usize = 0;
    assert(members@.skip(0) =~= members@);
    while i < members.len()
        invariant
            i <= members.len(),
            role_spec(members@, user_id) == role_spec(members@.skip(i as int), user_id),
        decreases members.len() - i,
    {
        proof {
            assert(members@.skip(i as int)[0] == members@[i as int]);
            assert(members@.skip(i as int).drop_first() =~= members@.skip(i + 1));
        }
        if members[i].1.id == user_id {
            return members[i].0.role.clone();
        }
        i = i + 1;
    }
    String::new()
}

/// Changing an organization or its members: an admin, or its creator.
pub fn check_org_admin(role: &str, org: &Organization, user_id: i64, message: &str) -> (r: Result<
    (),
    AppError,
>)
    ensures
        r is Ok <==> (role@ == "admin"@ || org.owner_id == user_id),
        r matches Err(e) ==> e is Unauthorized && e.msg() == message@,
{
    if !str_eq(role, "admin") && org.owner_id != user_id {
        return Err(AppError::Unauthorized(message.to_string()));
    }
    Ok(())
}

/// The creator of an organization cannot be removed from it.
pub fn check_member_removal(org: &Organization, target_user_id: i64) -> (r: Result<(), AppError>)
    ensures
        r is Ok <==> target_user_id != org.owner_id,
        r matches Err(e) ==> e is BadRequest && e.msg() == "不能移除組織建立者"@,
{
    if target_user_id == org.owner_id {
        return Err(AppError::BadRequest("不能移除組織建立者".to_string()));
    }
    Ok(())
}

// ───────────────────────── submitted texts ─────────────────────────

/// Length in bytes (what `str::len` counts).
pub open spec fn byte_len(s: Seq<char>) -> nat {
    encode_utf8(s).len()
}

/// `str::len`: the number of bytes of the UTF-8 encoding.
pub fn byte_length(s: &str) -> (n: u128)
    ensures
        n == byte_len(s@),
{
    let v = chars_of(s);
    assert(v@.subrange(0, v@.len() as int) =~= s@);
    utf8_len(&v, 0, v.len())
}

/// A new organization's name has at least two bytes.
pub fn check_org_name(name: &str) -> (r: Result<(), AppError>)
    ensures
        r is Ok <==> byte_len(name@) >= 2,
        r matches Err(e) ==> e is BadRequest && e.msg() == "組織名稱至少需要 2 個字元"@,
{
    if byte_length(name) < 2 {
        return Err(AppError::BadRequest("組織名稱至少需要 2 個字元".to_string()));
    }
    Ok(())
}

/// A new account needs a user name of at least three bytes and a password of at least six.
pub fn check_registration(username: &str, password: &str) -> (r: Result<(), AppError>)
    ensures
        r is Ok <==> byte_len(username@) >= 3 && byte_len(password@) >= 6,
        byte_len(username@) < 3 ==> (r matches Err(e) && e is BadRequest && e.msg()
            == "使用者名稱至少需要 3 個字元"@),
        byte_len(username@) >= 3 && byte_len(password@) < 6 ==> (r matches Err(e) && e is BadRequest
            && e.msg() == "密碼至少需要 6 個字元"@),
{
    if byte_length(username) < 3 {
        return Err(AppError::BadRequest("使用者名稱至少需要 3 個字元".to_string()));
    }
    if byte_length(password) < 6 {
        return Err(AppError::BadRequest("密碼至少需要 6 個字元".to_string()));
    }
    Ok(())
}

/// A text that must not be empty (repository names, titles, comments).
pub fn check_not_empty(text: &str, message: &str) -> (r: Result<(), AppError>)
    ensures
        r is Ok <==> text@.len() > 0,
        r matches Err(e) ==> e is BadRequest && e.msg() == message@,
{
    if text.is_empty() {
        return Err(AppError::BadRequest(message.to_string()));
    }
    Ok(())
}

/// Only the owner of a repository may change its settings.
pub fn check_owner(repo: &Repository, user_id: i64, message: &str) -> (r: Result<(), AppError>)
    ensures
        r is Ok <==> repo.user_id == user_id,
        r matches Err(e) ==> e is Unauthorized && e.msg() == message@,
{
    if repo.user_id != user_id {
        return Err(AppError::Unauthorized(message.to_string()));
    }
    Ok(())
}

/// Only an open pull request can be merged.
pub fn check_mergeable(state: &str) -> (r: Result<(), AppError>)
    ensures
        r is Ok <==> state@ == "open"@,
        r matches Err(e) ==> e is BadRequest && e.msg() == "Pull Request 已關閉或已合併"@,
{
    if !str_eq(state, "open") {
        return Err(AppError::BadRequest("Pull Request 已關閉或已合併".to_string()));
    }
    Ok(())
}

/// A deploy log is only shown under the repository it belongs to.
pub fn check_log_belongs(log_repo_id: i64, repo_id: i64) -> (r: Result<(), AppError>)
    ensures
        r is Ok <==> log_repo_id == repo_id,
        r matches Err(e) ==> e is NotFound && e.msg() == "該部署日誌不屬於此倉庫"@,
{
    if log_repo_id != repo_id {
        return Err(AppError::NotFound("該部署日誌不屬於此倉庫".to_string()));
    }
    Ok(())
}

} // verus!
