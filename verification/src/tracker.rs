//! Issues, labels, comments and pull requests: what requests must hold, which
//! filters apply, and the statements that update stored records.
use vstd::prelude::*;
use crate::errors::AppError;
use crate::models::Repository;
use crate::access::{is_org_repo, may_write_repo};
use crate::num::{decimal, i64_to_string, int_decimal, u64_to_string};
use crate::text::{join_spec, join_strings, str_eq};

verus! {

broadcast use vstd::string::group_string_axioms;

// ───────────────────────── request types ─────────────────────────

/// Filter of an issue listing.
pub struct ListIssuesQuery {
    pub state: Option<String>,
}

/// A new issue.
pub struct CreateIssueRequest {
    pub title: String,
    pub body: String,
    pub assignee_id: Option<i64>,
    pub label_ids: Option<Vec<i64>>,
}

/// Which issue of which repository.
pub struct IssuePath {
    pub repo_id: i64,
    pub issue_number: i64,
}

/// Changes to an issue; `assignee_id: Some(None)` clears the assignee.
pub struct UpdateIssueRequest {
    pub title: Option<String>,
    pub body: Option<String>,
    pub state: Option<String>,
    pub assignee_id: Option<Option<i64>>,
    pub label_ids: Option<Vec<i64>>,
}

/// A new label.
pub struct CreateLabelRequest {
    pub name: String,
    pub color: Option<String>,
}

/// Which label of which repository.
pub struct LabelPath {
    pub repo_id: i64,
    pub label_id: i64,
}

/// A new comment.
pub struct AddCommentRequest {
    pub body: String,
}

/// Filter of a pull request listing.
pub struct ListPrsQuery {
    pub state: Option<String>,
}

/// A new pull request.
pub struct CreatePrRequest {
    pub title: String,
    pub body: String,
    pub head_repo_id: i64,
    pub head_ref: String,
    pub base_ref: String,
}

/// Which pull request of which repository.
pub struct PrPath {
    pub repo_id: i64,
    pub pr_number: i64,
}

/// Changes to a pull request.
pub struct UpdatePrRequest {
    pub title: Option<String>,
    pub body: Option<String>,
    pub state: Option<String>,
}

// ───────────────────────── specifications ─────────────────────────

pub open spec fn opt_view(o: Option<String>) -> Option<Seq<char>> {
    match o {
        Some(s) => Some(s@),
        None => None,
    }
}

/// The one-element sequence of a present value, or nothing.
pub open spec fn present(o: Option<Seq<char>>) -> Seq<Seq<char>> {
    match o {
        Some(s) => seq![s],
        None => Seq::empty(),
    }
}

/// `<column> = ?<k+1>`.
pub open spec fn bound_column(column: Seq<char>, k: nat) -> Seq<char> {
    column + " = ?"@ + decimal(k + 1)
}

/// The `SET` items for a state change of an issue.
pub open spec fn issue_state_parts(state: Option<Seq<char>>, k: nat) -> Seq<Seq<char>> {
    match state {
        Some(s) => seq![
            bound_column("state"@, k),
            if s == "closed"@ {
                "closed_at = datetime('now')"@
            } else {
                "closed_at = NULL"@
            },
        ],
        None => Seq::empty(),
    }
}

/// The `SET` item for an assignee change.
pub open spec fn assignee_parts(assignee: Option<Option<i64>>) -> Seq<Seq<char>> {
    match assignee {
        Some(Some(a)) => seq!["assignee_id = "@ + int_decimal(a as int)],
        Some(None) => seq!["assignee_id = NULL"@],
        None => Seq::empty(),
    }
}

/// The `SET` items for a state change of a pull request.
pub open spec fn pr_state_parts(state: Option<Seq<char>>, k: nat) -> Seq<Seq<char>> {
    match state {
        Some(s) => if s == "closed"@ {
            seq![bound_column("state"@, k), "closed_at = datetime('now')"@]
        } else if s == "merged"@ {
            seq![bound_column("state"@, k), "merged_at = datetime('now')"@, "state = 'merged'"@]
        } else {
            seq![bound_column("state"@, k), "closed_at = NULL"@]
        },
        None => Seq::empty(),
    }
}

/// The `SET` items for the optional text columns, numbered from `?1`.
pub open spec fn text_parts(title: Option<Seq<char>>, body: Option<Seq<char>>) -> Seq<Seq<char>> {
    (match title {
        Some(_) => seq![bound_column("title"@, 0)],
        None => Seq::empty(),
    }) + (match body {
        Some(_) => seq![bound_column("body"@, present(title).len())],
        None => Seq::empty(),
    })
}

/// A complete `UPDATE` statement: the `SET` items joined by `, `, then the
/// id and repository placeholders numbered after the values.
pub open spec fn update_sql(table: Seq<char>, parts: Seq<Seq<char>>, n: nat) -> Seq<char> {
    "UPDATE "@ + table + " SET "@ + join_spec(parts, ", "@) + " WHERE id = ?"@ + decimal(n + 1)
        + " AND repo_id = ?"@ + decimal(n + 2)
}

/// The statement and parameters that update an issue.
pub open spec fn issue_update_spec(
    id: i64,
    repo_id: i64,
    title: Option<Seq<char>>,
    body: Option<Seq<char>>,
    state: Option<Seq<char>>,
    assignee: Option<Option<i64>>,
) -> (Seq<char>, Seq<Seq<char>>) {
    let vals = present(title) + present(body) + present(state);
    let parts = seq!["updated_at = datetime('now')"@] + text_parts(title, body) + issue_state_parts(
        state,
        present(title).len() + present(body).len(),
    ) + assignee_parts(assignee);
    (
        update_sql("issues"@, parts, vals.len()),
        vals + seq![int_decimal(id as int), int_decimal(repo_id as int)],
    )
}

/// The statement and parameters that update a pull request.
pub open spec fn pr_update_spec(
    id: i64,
    repo_id: i64,
    title: Option<Seq<char>>,
    body: Option<Seq<char>>,
    state: Option<Seq<char>>,
) -> (Seq<char>, Seq<Seq<char>>) {
    let vals = present(title) + present(body) + present(state);
    let parts = seq!["updated_at = datetime('now')"@] + text_parts(title, body) + pr_state_parts(
        state,
        present(title).len() + present(body).len(),
    );
    (
        update_sql("pull_requests"@, parts, vals.len()),
        vals + seq![int_decimal(id as int), int_decimal(repo_id as int)],
    )
}

// ───────────────────────── executable code ─────────────────────────

/// Issues, labels and pull requests of a repository may be changed by its
/// owner, or by anyone when an organization owns it.
pub fn check_write(repo: &Repository, user_id: i64, message: &str) -> (r: Result<(), AppError>)
    ensures
        r is Ok <==> (repo.user_id == user_id || is_org_repo(*repo)),
        r matches Err(e) ==> e is Unauthorized && e.msg() == message@,
{
    if !may_write_repo(repo, user_id) {
        return Err(AppError::Unauthorized(String::from_str(message)));
    }
    Ok(())
}

/// The state an issue listing filters on: only `open` and `closed` filter.
pub fn issue_state_filter(q: &ListIssuesQuery) -> (f: Option<String>)
    ensures
        match f {
            Some(s) => q.state matches Some(t) && s@ == t@ && (t@ == "open"@ || t@ == "closed"@),
            None => !(q.state matches Some(t) && (t@ == "open"@ || t@ == "closed"@)),
        },
{
    match &q.state {
        Some(s) => if str_eq(s.as_str(), "open") || str_eq(s.as_str(), "closed") {
            Some(s.clone())
        } else {
            None
        },
        None => None,
    }
}

/// The state a pull request listing filters on: `open`, `closed` and `merged`.
pub fn pr_state_filter(q: &ListPrsQuery) -> (f: Option<String>)
    ensures
        match f {
            Some(s) => q.state matches Some(t) && s@ == t@ && (t@ == "open"@ || t@ == "closed"@
                || t@ == "merged"@),
            None => !(q.state matches Some(t) && (t@ == "open"@ || t@ == "closed"@ || t@
                == "merged"@)),
        },
{
    match &q.state {
        Some(s) => if str_eq(s.as_str(), "open") || str_eq(s.as_str(), "closed") || str_eq(
            s.as_str(),
            "merged",
        ) {
            Some(s.clone())
        } else {
            None
        },
        None => None,
    }
}

/// The next issue or pull request number: one past the highest so far.
pub fn next_number(highest: Option<i64>) -> (n: i64)
    requires
        highest matches Some(h) ==> h < i64::MAX,
    ensures
        n == match highest {
            Some(h) => h + 1,
            None => 1,
        },
{
    match highest {
        Some(h) => h + 1,
        None => 1,
    }
}

/// A new issue needs a title.
pub fn check_new_issue(req: &CreateIssueRequest) -> (r: Result<(), AppError>)
    ensures
        r is Ok <==> req.title@.len() > 0,
        r matches Err(e) ==> e is BadRequest && e.msg() == "標題不能為空"@,
{
    if req.title.as_str().is_empty() {
        return Err(AppError::BadRequest(String::from_str("標題不能為空")));
    }
    Ok(())
}

/// The labels to attach to a new issue: only a non-empty list is applied.
pub fn labels_for_new_issue(req: &CreateIssueRequest) -> (l: Option<Vec<i64>>)
    ensures
        match l {
            Some(v) => req.label_ids matches Some(w) && v@ == w@ && w@.len() > 0,
            None => !(req.label_ids matches Some(w) && w@.len() > 0),
        },
{
    match &req.label_ids {
        Some(w) => if w.len() > 0 {
            Some(w.clone())
        } else {
            None
        },
        None => None,
    }
}

/// A new pull request needs a title.
pub fn check_new_pr(req: &CreatePrRequest) -> (r: Result<(), AppError>)
    ensures
        r is Ok <==> req.title@.len() > 0,
        r matches Err(e) ==> e is BadRequest && e.msg() == "標題不能為空"@,
{
    if req.title.as_str().is_empty() {
        return Err(AppError::BadRequest(String::from_str("標題不能為空")));
    }
    Ok(())
}

/// A comment needs a body.
pub fn check_comment(req: &AddCommentRequest) -> (r: Result<(), AppError>)
    ensures
        r is Ok <==> req.body@.len() > 0,
        r matches Err(e) ==> e is BadRequest && e.msg() == "留言內容不能為空"@,
{
    if req.body.as_str().is_empty() {
        return Err(AppError::BadRequest(String::from_str("留言內容不能為空")));
    }
    Ok(())
}

/// The color of a new label: the requested one, or `#0366d6`.
pub fn label_color(req: &CreateLabelRequest) -> (c: String)
    ensures
        c@ == match req.color {
            Some(s) => s@,
            None => "#0366d6"@,
        },
{
    match &req.color {
        Some(s) => s.clone(),
        None => String::from_str("#0366d6"),
    }
}

/// A merge only goes through without conflicts.
pub fn check_no_conflicts(has_conflicts: bool) -> (r: Result<(), AppError>)
    ensures
        r is Ok <==> !has_conflicts,
        r matches Err(e) ==> e is Conflict && e.msg() == "合併衝突，無法自動合併"@,
{
    if has_conflicts {
        return Err(AppError::Conflict(String::from_str("合併衝突，無法自動合併")));
    }
    Ok(())
}

/// `<column> = ?<k+1>`.
fn bound_column_text(column: &str, k: usize) -> (s: String)
    requires
        k < usize::MAX,
    ensures
        s@ == bound_column(column@, k as nat),
{
    let mut s = String::from_str(column);
    s.append(" = ?");
    s.append(u64_to_string((k + 1) as u64).as_str());
    s
}

/// The optional text columns, with their values.
fn push_text_parts(
    parts: &mut Vec<String>,
    vals: &mut Vec<String>,
    title: &Option<String>,
    body: &Option<String>,
)
    requires
        old(vals)@.len() == 0,
    ensures
        final(parts)@.map_values(|x: String| x@) == old(parts)@.map_values(|x: String| x@) + text_parts(
            opt_view(*title),
            opt_view(*body),
        ),
        final(vals)@.map_values(|x: String| x@) == present(opt_view(*title)) + present(opt_view(*body)),
        final(vals)@.len() <= 2,
{
    let ghost p0 = parts@.map_values(|x: String| x@);
    if let Some(t) = title {
        parts.push(bound_column_text("title", 0));
        vals.push(t.clone());
    }
    let k = vals.len();
    if let Some(b) = body {
        parts.push(bound_column_text("body", k));
        vals.push(b.clone());
    }
    assert(parts@.map_values(|x: String| x@) =~= p0 + text_parts(opt_view(*title), opt_view(*body)));
    assert(vals@.map_values(|x: String| x@) =~= present(opt_view(*title)) + present(opt_view(*body)));
}

/// The statement and parameters that update an issue: `updated_at` always,
/// then each given field bound to the next parameter number; a state also sets
/// or clears `closed_at`; the assignee is written in place.
pub fn issue_update_statement(
    id: i64,
    repo_id: i64,
    title: Option<String>,
    body: Option<String>,
    state: Option<String>,
    assignee_id: Option<Option<i64>>,
) -> (r: (String, Vec<String>))
    ensures
        r.0@ == issue_update_spec(id, repo_id, opt_view(title), opt_view(body), opt_view(state), assignee_id).0,
        r.1@.map_values(|x: String| x@) == issue_update_spec(
            id,
            repo_id,
            opt_view(title),
            opt_view(body),
            opt_view(state),
            assignee_id,
        ).1,
{
    let mut parts: Vec<String> = vec![String::from_str("updated_at = datetime('now')")];
    let mut vals: Vec<String> = Vec::new();
    push_text_parts(&mut parts, &mut vals, &title, &body);
    let ghost p1 = parts@.map_values(|x: String| x@);
    let ghost v1 = vals@.map_values(|x: String| x@);
    let k = vals.len();
    if let Some(s) = &state {
        parts.push(bound_column_text("state", k));
        vals.push(s.clone());
        if str_eq(s.as_str(), "closed") {
            parts.push(String::from_str("closed_at = datetime('now')"));
        } else {
            parts.push(String::from_str("closed_at = NULL"));
        }
    }
    assert(parts@.map_values(|x: String| x@) =~= p1 + issue_state_parts(opt_view(state), k as nat));
    let ghost p2 = parts@.map_values(|x: String| x@);
    match assignee_id {
        Some(Some(a)) => {
            let mut s = String::from_str("assignee_id = ");
            s.append(i64_to_string(a).as_str());
            parts.push(s);
        },
        Some(None) => {
            parts.push(String::from_str("assignee_id = NULL"));
        },
        None => {},
    }
    assert(parts@.map_values(|x: String| x@) =~= p2 + assignee_parts(assignee_id));
    let n = vals.len();
    let mut sql = String::from_str("UPDATE ");
    sql.append("issues");
    sql.append(" SET ");
    sql.append(join_strings(&parts, ", ").as_str());
    sql.append(" WHERE id = ?");
    sql.append(u64_to_string((n + 1) as u64).as_str());
    sql.append(" AND repo_id = ?");
    sql.append(u64_to_string((n + 2) as u64).as_str());
    let ghost vals_before = vals@.map_values(|x: String| x@);
    vals.push(i64_to_string(id));
    vals.push(i64_to_string(repo_id));
    proof {
        let spec = issue_update_spec(id, repo_id, opt_view(title), opt_view(body), opt_view(state), assignee_id);
        assert(vals_before =~= present(opt_view(title)) + present(opt_view(body)) + present(opt_view(state)));
        assert(parts@.map_values(|x: String| x@) =~= seq!["updated_at = datetime('now')"@] + text_parts(
            opt_view(title),
            opt_view(body),
        ) + issue_state_parts(opt_view(state), (present(opt_view(title)).len() + present(opt_view(body)).len()) as nat)
            + assignee_parts(assignee_id));
        assert(vals@.map_values(|x: String| x@) =~= spec.1);
    }
    (sql, vals)
}

/// The statement and parameters that update a pull request: like an issue,
/// but a `merged` state stamps `merged_at` and pins the state to `merged`.
pub fn pr_update_statement(
    id: i64,
    repo_id: i64,
    title: Option<String>,
    body: Option<String>,
    state: Option<String>,
) -> (r: (String, Vec<String>))
    ensures
        r.0@ == pr_update_spec(id, repo_id, opt_view(title), opt_view(body), opt_view(state)).0,
        r.1@.map_values(|x: String| x@) == pr_update_spec(
            id,
            repo_id,
            opt_view(title),
            opt_view(body),
            opt_view(state),
        ).1,
{
    let mut parts: Vec<String> = vec![String::from_str("updated_at = datetime('now')")];
    let mut vals: Vec<String> = Vec::new();
    push_text_parts(&mut parts, &mut vals, &title, &body);
    let ghost p1 = parts@.map_values(|x: String| x@);
    let k = vals.len();
    if let Some(s) = &state {
        parts.push(bound_column_text("state", k));
        vals.push(s.clone());
        if str_eq(s.as_str(), "closed") {
            parts.push(String::from_str("closed_at = datetime('now')"));
        } else if str_eq(s.as_str(), "merged") {
            parts.push(String::from_str("merged_at = datetime('now')"));
            parts.push(String::from_str("state = 'merged'"));
        } else {
            parts.push(String::from_str("closed_at = NULL"));
        }
    }
    assert(parts@.map_values(|x: String| x@) =~= p1 + pr_state_parts(opt_view(state), k as nat));
    let n = vals.len();
    let mut sql = String::from_str("UPDATE ");
    sql.append("pull_requests");
    sql.append(" SET ");
    sql.append(join_strings(&parts, ", ").as_str());
    sql.append(" WHERE id = ?");
    sql.append(u64_to_string((n + 1) as u64).as_str());
    sql.append(" AND repo_id = ?");
    sql.append(u64_to_string((n + 2) as u64).as_str());
    let ghost vals_before = vals@.map_values(|x: String| x@);
    vals.push(i64_to_string(id));
    vals.push(i64_to_string(repo_id));
    proof {
        let spec = pr_update_spec(id, repo_id, opt_view(title), opt_view(body), opt_view(state));
        assert(parts@.map_values(|x: String| x@) =~= seq!["updated_at = datetime('now')"@] + text_parts(
            opt_view(title),
            opt_view(body),
        ) + pr_state_parts(opt_view(state), (present(opt_view(title)).len() + present(opt_view(body)).len()) as nat));
        assert(vals_before =~= present(opt_view(title)) + present(opt_view(body)) + present(opt_view(state)));
        assert(vals@.map_values(|x: String| x@) =~= spec.1);
    }
    (sql, vals)
}

} // verus!
