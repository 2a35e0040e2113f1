use gitpage::docker::{allocations_from_containers, record_port, ssh_host_port, ssh_port_for};
use gitpage::docker::{container_app_env, container_ip, generate_password, kill_listeners_command, listener_found, listening_check_command, name_filter};
use gitpage::requests::{check_org_name_free, check_repo_name_free, pages_deploy_source};
use gitpage::git::{git_backend_path, pages_lookup};
use gitpage::auth::{check_login, hash_new_password, registration_error};
use gitpage::access::{
    byte_length, check_fork, check_log_belongs, check_member_removal, check_mergeable,
    check_not_empty, check_org_admin, check_org_name, check_owner, check_registration,
    check_repo_read, may_manage_repo, may_write_repo, org_role, owner_of_repo, OwnerRef,
};
use gitpage::cgi::{parse_cgi_output, parse_cgi_text};
use gitpage::docker::{
    app_workdir, checked_memory_limit, container_binds, container_is_up, container_name,
    container_owner, container_setup_command, find_free_port, parse_memory_limit,
};
use gitpage::errors::AppError;
use gitpage::listing::{order_entries, order_file_entries};
use gitpage::models::{FileEntry, Organization, OrganizationMember, Repository, SshKey, User, UserPublic};
use gitpage::ssh::authorized_keys_content;
use gitpage::num::{i64_to_string, u128_to_string, u64_to_string};
use gitpage::routing::{
    app_proxy_url, bearer_token, cgi_path_info, git_path_info, is_public_request, is_push_request,
    route_of, served_pages_dir, spa_fallback_allowed, git_project_root, Route,
};

fn repo(id: i64, user_id: i64, name: &str, private: bool, owner_type: &str, org_id: Option<i64>) -> Repository {
    Repository {
        id,
        user_id,
        name: name.to_string(),
        description: String::new(),
        is_private: private,
        default_branch: "main".to_string(),
        owner_type: owner_type.to_string(),
        org_id,
        forked_from: None,
        stars_count: 0,
        forks_count: 0,
        watch_count: 0,
        created_at: String::new(),
        updated_at: String::new(),
    }
}

fn user(id: i64, name: &str) -> User {
    User {
        id,
        username: name.to_string(),
        email: format!("{}@example.com", name),
        password_hash: "h".to_string(),
        bio: String::new(),
        avatar_url: String::new(),
        created_at: String::new(),
    }
}

fn member(org_id: i64, user_id: i64, role: &str) -> OrganizationMember {
    OrganizationMember { id: 1, org_id, user_id, role: role.to_string(), created_at: String::new() }
}

fn org(owner_id: i64) -> Organization {
    Organization {
        id: 7,
        name: "acme".to_string(),
        display_name: "Acme".to_string(),
        description: String::new(),
        owner_id,
        created_at: String::new(),
    }
}

#[test]
fn public_requests() {
    assert!(is_public_request("/index.html", "POST"));
    assert!(is_public_request("/api/repos/1", "GET"));
    assert!(is_public_request("/api/auth/login", "POST"));
    assert!(is_public_request("/api/anything", "OPTIONS"));
    assert!(!is_public_request("/api/auth/me", "GET"));
    assert!(!is_public_request("/api/repos", "GET"));
    assert!(!is_public_request("/api/repos", "POST"));
    assert!(!is_public_request("/api/orgs", "DELETE"));
}

#[test]
fn bearer_tokens() {
    assert_eq!(bearer_token("Bearer abc.def"), Some("abc.def".to_string()));
    assert_eq!(bearer_token("Basic xyz"), None);
    assert_eq!(bearer_token("bearer abc"), None);
}

#[test]
fn fallback_routes() {
    match route_of("/git/alice/blog/info/refs") {
        Route::Git { owner, repo, subpath } => {
            assert_eq!(owner, "alice");
            assert_eq!(repo, "blog");
            assert_eq!(subpath, "info/refs");
        }
        r => panic!("unexpected {:?}", r),
    }
    match route_of("/pages/alice/site") {
        Route::Pages { owner, repo, subpath } => {
            assert_eq!(owner, "alice");
            assert_eq!(repo, "site");
            assert_eq!(subpath, "");
        }
        r => panic!("unexpected {:?}", r),
    }
    match route_of("/app/bob/todo/api/todos") {
        Route::App { owner, repo, subpath } => {
            assert_eq!(owner, "bob");
            assert_eq!(repo, "todo");
            assert_eq!(subpath, "api/todos");
        }
        r => panic!("unexpected {:?}", r),
    }
    assert!(matches!(route_of("/git/alice"), Route::Static));
    assert!(matches!(route_of("/about"), Route::Static));
}

#[test]
fn routing_texts() {
    assert_eq!(git_path_info("alice", "blog", "info/refs"), "/alice/blog.git/info/refs");
    assert_eq!(cgi_path_info("alice/blog.git"), "/alice/blog.git");
    assert_eq!(cgi_path_info("/x"), "/x");
    assert!(is_push_request(Some("application/x-git-receive-pack-request")));
    assert!(!is_push_request(Some("application/x-git-upload-pack-request")));
    assert!(!is_push_request(None));
    assert_eq!(served_pages_dir("./data", "a", "b"), "./data/repos/a/b/pages");
    assert_eq!(git_project_root("data"), "data/repos");
    assert_eq!(
        format!("{}{}", git_project_root("data"), git_path_info("alice", "blog", "info/refs")),
        "data/repos/alice/blog.git/info/refs"
    );
    assert_eq!(app_proxy_url(4001, "api/x"), "http://127.0.0.1:4001/api/x");
    assert!(spa_fallback_allowed("/settings/profile"));
    assert!(!spa_fallback_allowed("/main.js"));
}

#[test]
fn repository_read_access() {
    let public = repo(1, 10, "p", false, "user", None);
    assert!(check_repo_read(&public, None, None).is_ok());
    let private = repo(2, 10, "q", true, "user", None);
    assert!(check_repo_read(&private, Some(10), None).is_ok());
    match check_repo_read(&private, Some(11), None) {
        Err(AppError::Unauthorized(m)) => assert_eq!(m, "私有倉庫"),
        _ => panic!("expected Unauthorized"),
    }
    assert!(check_repo_read(&private, None, None).is_err());
    let org_private = repo(3, 10, "r", true, "org", Some(7));
    let members = vec![20, 21];
    assert!(check_repo_read(&org_private, Some(21), Some(&members)).is_ok());
    assert!(check_repo_read(&org_private, Some(10), Some(&members)).is_err());
}

#[test]
fn repository_management_and_writes() {
    let own = repo(1, 10, "p", false, "user", None);
    assert!(may_manage_repo(&own, 10, &vec![]));
    assert!(!may_manage_repo(&own, 11, &vec![]));
    let org_repo = repo(2, 10, "q", false, "org", Some(7));
    let members = vec![(member(7, 11, "admin"), user(11, "ann")), (member(7, 12, "member"), user(12, "bo"))];
    assert!(may_manage_repo(&org_repo, 11, &members));
    assert!(!may_manage_repo(&org_repo, 12, &members));
    assert!(may_write_repo(&org_repo, 12));
    assert!(may_write_repo(&own, 10));
    assert!(!may_write_repo(&own, 12));
    assert_eq!(owner_of_repo(&org_repo), OwnerRef::Org(7));
    assert_eq!(owner_of_repo(&own), OwnerRef::User(10));
    assert_eq!(owner_of_repo(&repo(3, 5, "x", false, "org", None)), OwnerRef::User(5));
}

#[test]
fn fork_rules() {
    let source = repo(1, 10, "blog", false, "user", None);
    let mut mine = repo(2, 20, "blog-copy", false, "user", None);
    mine.forked_from = Some(1);
    match check_fork(&vec![mine], &source) {
        Err(AppError::BadRequest(m)) => assert_eq!(m, "已經 Fork 過此倉庫"),
        _ => panic!("expected BadRequest"),
    }
    match check_fork(&vec![repo(3, 20, "blog", false, "user", None)], &source) {
        Err(AppError::BadRequest(m)) => assert_eq!(m, "已有同名倉庫"),
        _ => panic!("expected BadRequest"),
    }
    assert!(check_fork(&vec![repo(4, 20, "other", false, "user", None)], &source).is_ok());
}

#[test]
fn organization_rules() {
    let members = vec![(member(7, 11, "admin"), user(11, "ann")), (member(7, 12, "member"), user(12, "bo"))];
    assert_eq!(org_role(&members, 11), "admin");
    assert_eq!(org_role(&members, 12), "member");
    assert_eq!(org_role(&members, 13), "");
    let o = org(12);
    assert!(check_org_admin("admin", &o, 11, "無權限管理成員").is_ok());
    assert!(check_org_admin("member", &o, 12, "無權限管理成員").is_ok());
    match check_org_admin("member", &o, 13, "無權限管理成員") {
        Err(AppError::Unauthorized(m)) => assert_eq!(m, "無權限管理成員"),
        _ => panic!("expected Unauthorized"),
    }
    match check_member_removal(&o, 12) {
        Err(AppError::BadRequest(m)) => assert_eq!(m, "不能移除組織建立者"),
        _ => panic!("expected BadRequest"),
    }
    assert!(check_member_removal(&o, 11).is_ok());
}

#[test]
fn submitted_text_rules() {
    assert_eq!(byte_length("ab"), 2);
    assert_eq!(byte_length("組織"), 6);
    assert!(check_org_name("組").is_ok());
    assert!(check_org_name("a").is_err());
    match check_registration("ab", "secret1") {
        Err(AppError::BadRequest(m)) => assert_eq!(m, "使用者名稱至少需要 3 個字元"),
        _ => panic!("expected BadRequest"),
    }
    match check_registration("alice", "12345") {
        Err(AppError::BadRequest(m)) => assert_eq!(m, "密碼至少需要 6 個字元"),
        _ => panic!("expected BadRequest"),
    }
    assert!(check_registration("alice", "123456").is_ok());
    assert!(check_not_empty("x", "倉庫名稱不能為空").is_ok());
    match check_not_empty("", "倉庫名稱不能為空") {
        Err(AppError::BadRequest(m)) => assert_eq!(m, "倉庫名稱不能為空"),
        _ => panic!("expected BadRequest"),
    }
    let r = repo(1, 10, "p", false, "user", None);
    assert!(check_owner(&r, 10, "無權限").is_ok());
    assert!(matches!(check_owner(&r, 11, "無權限"), Err(AppError::Unauthorized(_))));
    assert!(check_mergeable("open").is_ok());
    match check_mergeable("merged") {
        Err(AppError::BadRequest(m)) => assert_eq!(m, "Pull Request 已關閉或已合併"),
        _ => panic!("expected BadRequest"),
    }
    assert!(check_log_belongs(3, 3).is_ok());
    match check_log_belongs(3, 4) {
        Err(AppError::NotFound(m)) => assert_eq!(m, "該部署日誌不屬於此倉庫"),
        _ => panic!("expected NotFound"),
    }
}

#[test]
fn public_user_view() {
    let p = UserPublic::from_user(user(5, "eve"));
    assert_eq!(p.id, 5);
    assert_eq!(p.username, "eve");
}

#[test]
fn memory_limits() {
    assert_eq!(parse_memory_limit("1g"), Some(1073741824));
    assert_eq!(parse_memory_limit(" 512M "), Some(536870912));
    assert_eq!(parse_memory_limit("64k"), Some(65536));
    assert_eq!(parse_memory_limit("1000"), Some(1000));
    assert_eq!(parse_memory_limit("lots"), None);
    assert_eq!(checked_memory_limit("2g"), Some(Some(2147483648)));
    assert_eq!(checked_memory_limit("x"), Some(None));
    assert_eq!(checked_memory_limit("9223372036854775807g"), None);
}

#[test]
fn ssh_port_allocation() {
    let alloc = vec![("alice".to_string(), 22001u16), ("bob".to_string(), 22002u16)];
    assert_eq!(find_free_port(&alloc, "carol", 22001, 22999), 22003);
    assert_eq!(find_free_port(&alloc, "alice", 22001, 22999), 22001);
    assert_eq!(find_free_port(&alloc, "carol", 22001, 22002), 22001);
}

#[test]
fn container_texts() {
    assert_eq!(container_name("alice"), "gitpage-alice");
    assert_eq!(container_owner("/gitpage-alice"), "alice");
    assert_eq!(container_owner("other"), "");
    assert!(container_is_up("RUNNING", ""));
    assert!(container_is_up("exited", "Up 3 minutes"));
    assert!(!container_is_up("exited", "Exited (0)"));
    assert_eq!(
        container_setup_command("alice", "pw"),
        "useradd -m alice 2>/dev/null; echo 'alice:pw' | chpasswd; mkdir -p /run/sshd; /usr/sbin/sshd -D & sleep infinity"
    );
    assert_eq!(
        container_binds("alice", "/srv/apps/alice"),
        vec!["gitpage-home-alice:/home/alice".to_string(), "/srv/apps/alice:/workspace".to_string()]
    );
    assert_eq!(app_workdir("todo"), "/workspace/todo/source");
}

#[test]
fn directory_listing_order() {
    let entries = vec![
        ("zeta.txt".to_string(), false),
        (".git".to_string(), true),
        ("docs".to_string(), true),
        ("Alpha.md".to_string(), false),
        ("assets".to_string(), true),
    ];
    let out = order_entries(entries);
    assert_eq!(
        out,
        vec![
            ("assets".to_string(), true),
            ("docs".to_string(), true),
            ("Alpha.md".to_string(), false),
            ("zeta.txt".to_string(), false),
        ]
    );
    let files = vec![
        FileEntry { name: "b.txt".to_string(), is_dir: false, size: Some(3), updated_at: String::new() },
        FileEntry { name: ".env".to_string(), is_dir: false, size: Some(1), updated_at: String::new() },
        FileEntry { name: "src".to_string(), is_dir: true, size: None, updated_at: String::new() },
    ];
    let names: Vec<String> = order_file_entries(files).into_iter().map(|f| f.name).collect();
    assert_eq!(names, vec!["src".to_string(), "b.txt".to_string()]);
}

#[test]
fn cgi_output_split() {
    let out = b"Status: 404 Not Found\r\nContent-Type: text/plain\r\nX-Extra :  yes \r\n\r\nmissing".to_vec();
    let r = parse_cgi_output(&out).unwrap();
    assert_eq!(r.status, 404);
    assert_eq!(
        r.headers,
        vec![
            ("Content-Type".to_string(), "text/plain".to_string()),
            ("X-Extra".to_string(), "yes".to_string()),
        ]
    );
    assert_eq!(r.body, b"missing".to_vec());
    let plain = b"no headers here".to_vec();
    let r = parse_cgi_output(&plain).unwrap();
    assert_eq!(r.status, 200);
    assert!(r.headers.is_empty());
    assert_eq!(r.body, plain);
    let odd = b"Status: 42\r\n\r\nx".to_vec();
    assert_eq!(parse_cgi_output(&odd).unwrap().status, 200);
}

#[test]
fn cgi_text_split_counts_header_bytes() {
    let text = "Status: 201 Created\r\nX-Name: café\r\n\r\nbody";
    let out = text.as_bytes().to_vec();
    let r = parse_cgi_text(text, &out);
    assert_eq!(r.status, 201);
    assert_eq!(r.headers, vec![("X-Name".to_string(), "café".to_string())]);
    assert_eq!(r.body, b"body".to_vec());
    let bad = vec![b'A', 0xff, b'\r', b'\n', b'\r', b'\n'];
    assert!(parse_cgi_output(&bad).is_none());
}

#[test]
fn decimal_texts() {
    assert_eq!(u64_to_string(0), "0");
    assert_eq!(u64_to_string(18446744073709551615), "18446744073709551615");
    assert_eq!(u128_to_string(1234567890123456789012345), "1234567890123456789012345");
    assert_eq!(i64_to_string(-42), "-42");
    assert_eq!(i64_to_string(i64::MIN), "-9223372036854775808");
}

#[test]
fn ssh_port_table() {
    let mut alloc: Vec<(String, u16)> = Vec::new();
    record_port(&mut alloc, "alice", 22001);
    record_port(&mut alloc, "bob", 22002);
    record_port(&mut alloc, "alice", 22005);
    assert_eq!(alloc.len(), 2);
    assert_eq!(ssh_port_for(&alloc, "alice"), Ok(22005));
    assert_eq!(ssh_port_for(&alloc, "bob"), Ok(22002));
    assert_eq!(ssh_port_for(&alloc, "carol"), Err("no SSH port for carol".to_string()));
    assert_eq!(ssh_host_port(&vec![(80, Some(8080)), (22, Some(22007)), (22, Some(1))]), Some(22007));
    assert_eq!(ssh_host_port(&vec![(22, None), (22, Some(1))]), None);
    assert_eq!(ssh_host_port(&vec![]), None);
    let containers = vec![
        ("/gitpage-alice".to_string(), vec![(22u16, Some(22001u16))]),
        ("/other".to_string(), vec![(22u16, Some(22009u16))]),
        ("/gitpage-bob".to_string(), vec![(80u16, Some(8080u16))]),
        ("/gitpage-alice".to_string(), vec![(22u16, Some(22004u16))]),
    ];
    let rebuilt = allocations_from_containers(&containers);
    assert_eq!(rebuilt, vec![("alice".to_string(), 22004)]);
}

#[test]
fn container_addresses_and_commands() {
    assert_eq!(
        container_ip("alice", &vec![None, Some("".to_string()), Some("0.0.0.0".to_string()), Some("172.17.0.3".to_string())]),
        Ok("172.17.0.3".to_string())
    );
    assert_eq!(container_ip("alice", &vec![None]), Err("no IP for gitpage-alice".to_string()));
    assert_eq!(name_filter("gitpage-alice"), vec![("name".to_string(), vec!["gitpage-alice".to_string()])]);
    assert_eq!(
        container_app_env(4001, Some(vec!["A=1".to_string()])),
        vec!["PORT=4001".to_string(), "HOST=0.0.0.0".to_string(), "A=1".to_string()]
    );
    assert_eq!(container_app_env(4001, None).len(), 2);
    assert_eq!(listening_check_command(4001), "lsof -i :4001 -t 2>/dev/null | head -1");
    assert_eq!(kill_listeners_command(4001), "lsof -ti :4001 | xargs -r kill -9");
    assert!(listener_found(" 1234\n"));
    assert!(!listener_found(" \n"));
    let p = generate_password(20);
    assert_eq!(p.len(), 20);
    assert!(p.chars().all(|c| c.is_ascii_lowercase() || c.is_ascii_digit()));
    assert_eq!(generate_password(12).len(), 12);
}

#[test]
fn creation_name_checks() {
    assert!(check_repo_name_free(false, true).is_ok());
    match check_repo_name_free(true, true) {
        Err(AppError::BadRequest(m)) => assert_eq!(m, "組織內已有同名倉庫"),
        _ => panic!("expected BadRequest"),
    }
    match check_repo_name_free(true, false) {
        Err(AppError::BadRequest(m)) => assert_eq!(m, "已有同名倉庫"),
        _ => panic!("expected BadRequest"),
    }
    match check_org_name_free(true, true) {
        Err(AppError::Conflict(m)) => assert_eq!(m, "組織名稱已存在"),
        _ => panic!("expected Conflict"),
    }
    match check_org_name_free(false, true) {
        Err(AppError::Conflict(m)) => assert_eq!(m, "該名稱已被使用者使用"),
        _ => panic!("expected Conflict"),
    }
    assert!(check_org_name_free(false, false).is_ok());
    assert_eq!(pages_deploy_source(&None), ("main".to_string(), "/".to_string()));
}

#[test]
fn published_page_lookup() {
    let l = pages_lookup("/d/pages", "");
    assert_eq!(l.file, "/d/pages/");
    assert_eq!(l.index, Some("/d/pages/index.html".to_string()));
    let l = pages_lookup("/d/pages", "css/site.css");
    assert_eq!(l.file, "/d/pages/css/site.css");
    assert_eq!(l.index, None);
    let l = pages_lookup("/d/pages", "/etc/hosts");
    assert_eq!(l.file, "/etc/hosts");
    assert_eq!(git_backend_path(false), "git");
    assert_eq!(git_backend_path(true), "git.exe");
}

#[test]
fn password_hashing_and_login() {
    let h = hash_new_password("correct horse").unwrap();
    assert!(h.starts_with("$argon2"));
    assert!(check_login("correct horse", &h).is_ok());
    match check_login("wrong", &h) {
        Err(AppError::Unauthorized(m)) => assert_eq!(m, "使用者名稱或密碼錯誤"),
        _ => panic!("expected Unauthorized"),
    }
    match check_login("x", "not a hash") {
        Err(AppError::Internal(m)) => assert!(m.starts_with("Parse hash error: ")),
        _ => panic!("expected Internal"),
    }
    match registration_error(Some("UNIQUE constraint failed: users.username"), "e") {
        AppError::Conflict(m) => assert_eq!(m, "使用者名稱或 Email 已存在"),
        _ => panic!("expected Conflict"),
    }
    match registration_error(None, "disk full") {
        AppError::Internal(m) => assert_eq!(m, "DB error: disk full"),
        _ => panic!("expected Internal"),
    }
}

#[test]
fn authorized_keys_lines_are_openssh_entries() {
    let key = SshKey {
        id: 1,
        user_id: 2,
        repo_id: 3,
        name: "laptop".to_string(),
        public_key: "ssh-ed25519 AAAAC3Nza".to_string(),
        created_at: String::new(),
    };
    let keys = vec![(key, user(2, "alice"), repo(3, 2, "blog", false, "user", None))];
    assert_eq!(
        authorized_keys_content("/home/git/.ssh/gitpage-shell", &keys),
        "command=\"/home/git/.ssh/gitpage-shell alice blog\",no-port-forwarding,no-X11-forwarding,no-agent-forwarding ssh-ed25519 AAAAC3Nza laptop\n"
    );
    assert_eq!(authorized_keys_content("/x", &vec![]), "");
}
