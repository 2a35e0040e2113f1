use gitpage::errors::AppError;
use gitpage::models::{CreateRepoRequest, Repository};
use gitpage::requests::{
    apps_settings, branch_protection_settings, check_deleted, collaborator_permission, member_role,
    new_repo_settings, org_profile, pages_settings, plan_repo_update, search_offset, search_paging,
    search_pattern, token_scopes, AddCollaboratorRequest, AddMemberRequest, CreateBranchProtectionRequest,
    CreateOrgRequest, CreateTokenRequest, SearchQuery, UpdateAppsConfig, UpdatePagesConfig,
    UpdateRepoRequest,
};
use gitpage::tracker::{
    check_comment, check_new_issue, check_new_pr, check_no_conflicts, check_write, issue_state_filter,
    issue_update_statement, label_color, labels_for_new_issue, next_number, pr_state_filter,
    pr_update_statement, AddCommentRequest, CreateIssueRequest, CreateLabelRequest, CreatePrRequest,
    ListIssuesQuery, ListPrsQuery,
};

fn repo(user_id: i64, owner_type: &str) -> Repository {
    Repository {
        id: 1,
        user_id,
        name: "blog".to_string(),
        description: "old".to_string(),
        is_private: false,
        default_branch: "main".to_string(),
        owner_type: owner_type.to_string(),
        org_id: None,
        forked_from: None,
        stars_count: 0,
        forks_count: 0,
        watch_count: 0,
        created_at: String::new(),
        updated_at: String::new(),
    }
}

#[test]
fn issue_update_statements() {
    let (sql, params) = issue_update_statement(5, 9, Some("T".to_string()), None, Some("closed".to_string()), Some(Some(4)));
    assert_eq!(
        sql,
        "UPDATE issues SET updated_at = datetime('now'), title = ?1, state = ?2, closed_at = datetime('now'), assignee_id = 4 WHERE id = ?3 AND repo_id = ?4"
    );
    assert_eq!(params, vec!["T".to_string(), "closed".to_string(), "5".to_string(), "9".to_string()]);
    let (sql, params) = issue_update_statement(5, 9, None, Some("B".to_string()), Some("open".to_string()), Some(None));
    assert_eq!(
        sql,
        "UPDATE issues SET updated_at = datetime('now'), body = ?1, state = ?2, closed_at = NULL, assignee_id = NULL WHERE id = ?3 AND repo_id = ?4"
    );
    assert_eq!(params, vec!["B".to_string(), "open".to_string(), "5".to_string(), "9".to_string()]);
    let (sql, params) = issue_update_statement(1, 2, None, None, None, None);
    assert_eq!(sql, "UPDATE issues SET updated_at = datetime('now') WHERE id = ?1 AND repo_id = ?2");
    assert_eq!(params, vec!["1".to_string(), "2".to_string()]);
}

#[test]
fn pr_update_statements() {
    let (sql, params) = pr_update_statement(8, 2, Some("T".to_string()), Some("B".to_string()), Some("merged".to_string()));
    assert_eq!(
        sql,
        "UPDATE pull_requests SET updated_at = datetime('now'), title = ?1, body = ?2, state = ?3, merged_at = datetime('now'), state = 'merged' WHERE id = ?4 AND repo_id = ?5"
    );
    assert_eq!(params, vec!["T".to_string(), "B".to_string(), "merged".to_string(), "8".to_string(), "2".to_string()]);
    let (sql, _) = pr_update_statement(8, 2, None, None, Some("closed".to_string()));
    assert_eq!(
        sql,
        "UPDATE pull_requests SET updated_at = datetime('now'), state = ?1, closed_at = datetime('now') WHERE id = ?2 AND repo_id = ?3"
    );
}

#[test]
fn listing_filters() {
    assert_eq!(issue_state_filter(&ListIssuesQuery { state: Some("open".to_string()) }), Some("open".to_string()));
    assert_eq!(issue_state_filter(&ListIssuesQuery { state: Some("merged".to_string()) }), None);
    assert_eq!(issue_state_filter(&ListIssuesQuery { state: None }), None);
    assert_eq!(pr_state_filter(&ListPrsQuery { state: Some("merged".to_string()) }), Some("merged".to_string()));
    assert_eq!(pr_state_filter(&ListPrsQuery { state: Some("all".to_string()) }), None);
}

#[test]
fn tracker_checks() {
    assert_eq!(next_number(None), 1);
    assert_eq!(next_number(Some(41)), 42);
    let r = repo(10, "user");
    assert!(check_write(&r, 10, "無權限建立 Issue").is_ok());
    match check_write(&r, 11, "無權限建立 Issue") {
        Err(AppError::Unauthorized(m)) => assert_eq!(m, "無權限建立 Issue"),
        _ => panic!("expected Unauthorized"),
    }
    assert!(check_write(&repo(10, "org"), 11, "x").is_ok());
    let issue = |title: &str, labels: Option<Vec<i64>>| CreateIssueRequest {
        title: title.to_string(),
        body: String::new(),
        assignee_id: None,
        label_ids: labels,
    };
    match check_new_issue(&issue("", None)) {
        Err(AppError::BadRequest(m)) => assert_eq!(m, "標題不能為空"),
        _ => panic!("expected BadRequest"),
    }
    assert!(check_new_issue(&issue("t", None)).is_ok());
    assert_eq!(labels_for_new_issue(&issue("t", Some(vec![1, 2]))), Some(vec![1, 2]));
    assert_eq!(labels_for_new_issue(&issue("t", Some(vec![]))), None);
    let pr = |title: &str| CreatePrRequest {
        title: title.to_string(),
        body: String::new(),
        head_repo_id: 1,
        head_ref: "f".to_string(),
        base_ref: "main".to_string(),
    };
    assert!(check_new_pr(&pr("")).is_err());
    assert!(check_new_pr(&pr("x")).is_ok());
    match check_comment(&AddCommentRequest { body: String::new() }) {
        Err(AppError::BadRequest(m)) => assert_eq!(m, "留言內容不能為空"),
        _ => panic!("expected BadRequest"),
    }
    assert_eq!(label_color(&CreateLabelRequest { name: "bug".to_string(), color: None }), "#0366d6");
    assert_eq!(label_color(&CreateLabelRequest { name: "bug".to_string(), color: Some("#f00".to_string()) }), "#f00");
    match check_no_conflicts(true) {
        Err(AppError::Conflict(m)) => assert_eq!(m, "合併衝突，無法自動合併"),
        _ => panic!("expected Conflict"),
    }
    assert!(check_no_conflicts(false).is_ok());
}

#[test]
fn search_requests() {
    let q = SearchQuery { q: "blog".to_string(), page: Some(0), page_size: Some(500) };
    assert_eq!(search_paging(&q), (1, 100));
    let q = SearchQuery { q: "blog".to_string(), page: None, page_size: None };
    assert_eq!(search_paging(&q), (1, 20));
    assert_eq!(search_pattern(&q), "%blog%");
    assert_eq!(search_offset(3, 20), 40);
    assert_eq!(search_offset(1, 100), 0);
}

#[test]
fn repository_updates() {
    let r = repo(10, "user");
    let u = plan_repo_update(&r, &UpdateRepoRequest { name: Some("site".to_string()), description: None, is_private: Some(true) });
    assert_eq!(u.name, "site");
    assert_eq!(u.description, "old");
    assert!(u.is_private);
    assert_eq!(u.rename_to, Some("site".to_string()));
    let u = plan_repo_update(&r, &UpdateRepoRequest { name: Some("blog".to_string()), description: Some("new".to_string()), is_private: None });
    assert_eq!(u.rename_to, None);
    assert_eq!(u.description, "new");
    let u = plan_repo_update(&r, &UpdateRepoRequest { name: Some(String::new()), description: None, is_private: None });
    assert_eq!(u.name, "");
    assert_eq!(u.rename_to, None);
    let req = CreateRepoRequest { name: String::new(), description: None, is_private: None, created_via: None, org_name: None };
    match new_repo_settings(&req) {
        Err(AppError::BadRequest(m)) => assert_eq!(m, "倉庫名稱不能為空"),
        _ => panic!("expected BadRequest"),
    }
    let req = CreateRepoRequest { name: "x".to_string(), description: None, is_private: None, created_via: None, org_name: None };
    assert_eq!(new_repo_settings(&req).unwrap(), (String::new(), false));
}

#[test]
fn settings_defaults() {
    assert_eq!(token_scopes(&CreateTokenRequest { name: "ci".to_string(), scopes: None, expires_at: None }), "repo");
    assert_eq!(collaborator_permission(&AddCollaboratorRequest { username: "bo".to_string(), permission: None }), "write");
    assert_eq!(
        branch_protection_settings(&CreateBranchProtectionRequest {
            pattern: "main".to_string(),
            require_pr: None,
            require_approvals: Some(2),
            dismiss_stale_reviews: None,
        }),
        (true, 2, true)
    );
    match check_deleted(false, "Token 不存在") {
        Err(AppError::NotFound(m)) => assert_eq!(m, "Token 不存在"),
        _ => panic!("expected NotFound"),
    }
    assert!(check_deleted(true, "x").is_ok());
    let p = pages_settings(&UpdatePagesConfig { branch: None, source_dir: None, custom_domain: None, enabled: None });
    assert_eq!((p.branch.as_str(), p.source_dir.as_str(), p.custom_domain.as_str(), p.enabled), ("main", "/", "", false));
    let a = apps_settings(&UpdateAppsConfig {
        branch: None,
        source_dir: Some("/web".to_string()),
        build_command: None,
        start_command: None,
        env_vars: None,
        enabled: Some(true),
    });
    assert_eq!(a.branch, "main");
    assert_eq!(a.source_dir, "/web");
    assert_eq!(a.env_vars, "{}");
    assert!(a.enabled);
    let (d, desc) = org_profile(&CreateOrgRequest { name: "acme".to_string(), display_name: None, description: None });
    assert_eq!((d.as_str(), desc.as_str()), ("acme", ""));
    assert_eq!(member_role(&AddMemberRequest { username: "bo".to_string(), role: None }), "member");
}
