use gitpage::config::{
    AppsConfig, Config, CorsConfig, DatabaseConfig, DockerConfig, JwtConfig, RuntimeConfig,
    SecretsConfig, ServerConfig, SshConfig, StorageConfig, UploadConfig,
};
use gitpage::errors::AppError;
use gitpage::files::{
    check_commit_message, child_path, move_paths, raw_content_type, safe_path, staging_listing_dir,
    CommitBody, MoveQuery, RawQuery, TreeQuery,
};
use gitpage::git::{
    branch_ref, entry_content_type, path_content_type, path_extension, path_join, repo_head_path,
    source_subdir, tree_path,
};
use gitpage::ssh::{authorized_keys_path, shell_script_path, ssh_dir};

fn config(base: &str) -> Config {
    Config {
        server: ServerConfig { host: "0.0.0.0".to_string(), port: 3000 },
        database: DatabaseConfig { path: "data/gitpage.db".to_string() },
        storage: StorageConfig { base_path: base.to_string() },
        jwt: JwtConfig { secret: "s".to_string(), expires_in_hours: 24 },
        ssh: SshConfig::default(),
        cors: CorsConfig::default(),
        upload: UploadConfig::default(),
        apps: AppsConfig::default(),
        runtime: RuntimeConfig::default(),
        docker: DockerConfig::default(),
        secrets: SecretsConfig::default(),
    }
}

#[test]
fn storage_layout() {
    let c = config("./data");
    assert_eq!(c.repo_path("alice", "blog"), "./data/repos/alice/blog.git");
    assert_eq!(c.user_repos_path("alice"), "./data/repos/alice");
    assert_eq!(c.pages_dir("alice", "blog"), "./data/repos/alice/blog/pages");
    assert_eq!(c.app_workspace_dir("alice", "blog"), "./data/apps/alice/blog");
    assert_eq!(c.working_tree_path("alice", "blog"), "./data/staging/alice/blog");
    assert_ne!(c.working_tree_path("alice", "blog"), c.working_tree_path("alice", "notes"));
    assert_eq!(c.staging_path("alice", "blog"), "./data/staging/alice/blog");
}

#[test]
fn config_defaults() {
    assert_eq!(AppsConfig::default().port_range_start, 4000);
    assert_eq!(AppsConfig::default().port_range_end, 65535);
    assert_eq!(RuntimeConfig::default().mode, "process");
    assert_eq!(CorsConfig::default().allowed_origins, vec!["*".to_string()]);
    assert_eq!(UploadConfig::default().max_file_size, 10 * 1024 * 1024);
    assert_eq!(DockerConfig::default().memory_limit, "1g");
    assert_eq!(DockerConfig::default().ssh_port_range_start, 22001);
    assert_eq!(SecretsConfig::default().encryption_key, "");
}

#[test]
fn jwt_secret_prefers_environment() {
    let j = JwtConfig { secret: "from-file".to_string(), expires_in_hours: 1 };
    assert_eq!(j.effective_secret(Some("from-env".to_string())), "from-env");
    assert_eq!(j.effective_secret(None), "from-file");
}

#[test]
fn ssh_locations() {
    assert_eq!(ssh_dir(Some("/home/git")), "/home/git/.ssh");
    assert_eq!(ssh_dir(None), "/tmp/.ssh");
    assert_eq!(authorized_keys_path(Some("/home/git")), "/home/git/.ssh/authorized_keys");
    assert_eq!(authorized_keys_path(None), "/tmp/.ssh/authorized_keys");
    assert_eq!(shell_script_path("/home/git/.ssh"), "/home/git/.ssh/gitpage-shell");
}

#[test]
fn safe_path_joins_with_one_slash() {
    assert_eq!(safe_path("/data/staging/a/r/", "/docs/x.md").unwrap(), "/data/staging/a/r/docs/x.md");
    assert_eq!(safe_path("/base", "file.txt").unwrap(), "/base/file.txt");
    assert_eq!(safe_path("/base//", "//file.txt").unwrap(), "/base/file.txt");
}

#[test]
fn safe_path_refuses_parent_references() {
    match safe_path("/base", "../etc/passwd") {
        Err(AppError::BadRequest(m)) => assert_eq!(m, "不允許的路徑跳躍"),
        _ => panic!("expected BadRequest"),
    }
    assert!(safe_path("/base", "a/b..c").is_err());
}

#[test]
fn move_paths_resolve_both_ends() {
    let q = MoveQuery { from: "x.txt".to_string(), to: "dir/y.txt".to_string() };
    let (from, to) = move_paths("/b", &q).unwrap();
    assert_eq!(from, "/b/x.txt");
    assert_eq!(to, "/b/dir/y.txt");
    let bad = MoveQuery { from: "x".to_string(), to: "../y".to_string() };
    assert!(move_paths("/b", &bad).is_err());
}

#[test]
fn commit_message_must_have_text() {
    assert!(check_commit_message(&CommitBody { message: "fix typo".to_string() }).is_ok());
    match check_commit_message(&CommitBody { message: "  \n ".to_string() }) {
        Err(AppError::BadRequest(m)) => assert_eq!(m, "Commit 訊息不能為空"),
        _ => panic!("expected BadRequest"),
    }
}

#[test]
fn child_paths() {
    assert_eq!(child_path("", "a.txt"), "a.txt");
    assert_eq!(child_path("docs", "a.txt"), "docs/a.txt");
}

#[test]
fn tree_paths_and_refs() {
    assert_eq!(branch_ref("main"), "refs/heads/main");
    assert_eq!(tree_path("//src/lib.rs"), "src/lib.rs");
    assert_eq!(source_subdir("/docs/"), "docs");
    assert_eq!(source_subdir("/"), "");
}

#[test]
fn extensions_follow_path_rules() {
    assert_eq!(path_extension("a/b/readme.md"), Some("md".to_string()));
    assert_eq!(path_extension("archive.tar.gz"), Some("gz".to_string()));
    assert_eq!(path_extension(".bashrc"), None);
    assert_eq!(path_extension("Makefile"), None);
    assert_eq!(path_extension("name."), Some("".to_string()));
    assert_eq!(path_extension("dir/file.txt/"), Some("txt".to_string()));
    assert_eq!(path_extension("dir/file.txt/."), Some("txt".to_string()));
    assert_eq!(path_extension("a.b/.."), None);
    assert_eq!(path_extension("/"), None);
}

#[test]
fn content_types() {
    assert_eq!(entry_content_type(Some("notes.txt")), "text/plain");
    assert_eq!(entry_content_type(Some("index.html")), "text/html");
    assert_eq!(entry_content_type(Some("LICENSE")), "application/octet-stream");
    assert_eq!(entry_content_type(None), "application/octet-stream");
    assert_eq!(path_content_type("site/style.css"), "text/css");
    assert_eq!(path_content_type("Makefile"), "application/octet-stream");
    assert_eq!(raw_content_type(&RawQuery { path: "a/b.json".to_string() }), "application/json");
}

#[test]
fn joins_and_head() {
    assert_eq!(path_join("", "x"), "x");
    assert_eq!(path_join("a/", "x"), "a/x");
    assert_eq!(path_join("a", "x"), "a/x");
    assert_eq!(repo_head_path("./data/repos/a/b.git"), "./data/repos/a/b.git/HEAD");
    assert_eq!(staging_listing_dir("/s", &TreeQuery { path: None }), "/s/");
    assert_eq!(staging_listing_dir("/s", &TreeQuery { path: Some("/docs".to_string()) }), "/s/docs");
}
