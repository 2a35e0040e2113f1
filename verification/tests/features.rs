use gitpage::auth::Claims;
use gitpage::deploy::{AppProcess, AppStatus, ProcessTable, ProjectType};
use gitpage::errors::AppError;
use gitpage::git::{
    blob_request, commit_info, delta_name, get_readme, git_command_error, is_markdown_path,
    merge_message, missing_branch_error, missing_source_dir_error, readme_branch, readme_candidates,
    tree_request, BlobQuery, DeltaStatus, ReadmeQuery, TreeQuery,
};
use gitpage::hosting::{
    after_container_check, app_environment, app_url, build_failure, deploy_failure_log, deploy_plan,
    restore_step, source_is_subdir, text_lines, RestoreAction, RestoreStep,
};
use gitpage::markdown::{extract_math, math_markup_html, render_markdown, replace_str};
use gitpage::models::{AppsConfig, EnabledAppWithOwner, UserPublic};
use gitpage::secrets::{
    decrypt_secret, encrypt_secret, encryption_key_from, new_access_token, seal_secret, token_record,
};

fn apps_config(build: &str, start: &str, port: i64) -> AppsConfig {
    AppsConfig {
        id: 1,
        repo_id: 9,
        branch: "main".to_string(),
        source_dir: "/".to_string(),
        build_command: build.to_string(),
        start_command: start.to_string(),
        env_vars: "{}".to_string(),
        enabled: true,
        port,
    }
}

#[test]
fn math_spans_are_extracted_in_order() {
    let (clean, blocks) = extract_math("a $$x^2$$ b $y$ c");
    assert_eq!(clean, "a \u{0}M0D\u{0} b \u{0}M1I\u{0} c");
    assert_eq!(
        blocks,
        vec![
            ("\u{0}M0D\u{0}".to_string(), "$$x^2$$".to_string()),
            ("\u{0}M1I\u{0}".to_string(), "y".to_string()),
        ]
    );
}

#[test]
fn math_extraction_edge_cases() {
    let (clean, blocks) = extract_math("price: 5$$ only");
    assert_eq!(clean, "price: 5$$ only");
    assert!(blocks.is_empty());
    let (clean, blocks) = extract_math("$a\nb$");
    assert_eq!(clean, "$a\nb$");
    assert!(blocks.is_empty());
    let (clean, blocks) = extract_math("cost $5 and $$ open");
    assert_eq!(clean, "cost \u{0}M0I\u{0}$ open");
    assert_eq!(blocks, vec![("\u{0}M0I\u{0}".to_string(), "5 and ".to_string())]);
    let (clean, blocks) = extract_math("$a\nb$ then $c$");
    assert_eq!(clean, "$a\nb\u{0}M0I\u{0}c$");
    assert_eq!(blocks, vec![("\u{0}M0I\u{0}".to_string(), " then ".to_string())]);
    let (clean, blocks) = extract_math("$$$x$$");
    assert_eq!(clean, "\u{0}M0D\u{0}");
    assert_eq!(blocks, vec![("\u{0}M0D\u{0}".to_string(), "$$$x$$".to_string())]);
}

#[test]
fn replacing_text() {
    assert_eq!(replace_str("a-b-c", "-", "+"), "a+b+c");
    assert_eq!(replace_str("aaaa", "aa", "b"), "bb");
    assert_eq!(replace_str("abc", "", "x"), "abc");
    assert_eq!(replace_str("abc", "z", "x"), "abc");
}

#[test]
fn math_markup() {
    assert_eq!(math_markup_html("$$x^2$$"), "<div class=\"math-display\">\\[x^2 \\]</div>");
    assert_eq!(math_markup_html("e^x"), "<span class=\"math-inline\">\\(e^x\\)</span>");
}

#[test]
fn markdown_rendering() {
    assert_eq!(render_markdown("Hello"), "<p>Hello</p>\n");
    assert_eq!(render_markdown("# Title"), "<h1>Title</h1>\n");
    assert_eq!(
        render_markdown("Euler $e^x$ here"),
        "<p>Euler <span class=\"math-inline\">\\(e^x\\)</span> here</p>\n"
    );
}

#[test]
fn secret_encryption_round_trip() {
    let key = encryption_key_from("passphrase").unwrap();
    assert_eq!(key.len(), 32);
    let stored = encrypt_secret(&key, b"db-password").unwrap();
    assert_eq!(stored.len(), 12 + 11 + 16);
    assert_eq!(decrypt_secret(&key, &stored).unwrap(), b"db-password".to_vec());
}

#[test]
fn secret_key_derivation() {
    assert_eq!(encryption_key_from(""), None);
    let key = encryption_key_from("abc").unwrap();
    let hex: String = key.iter().map(|b| format!("{:02x}", b)).collect();
    assert_eq!(hex, "ba7816bf8f01cfea414140de5dae2223b00361a396177a9cb410ff61f20015ad");
}

#[test]
fn secret_sealing_with_fixed_nonce() {
    let key = encryption_key_from("k").unwrap();
    let nonce = [7u8; 12];
    let a = seal_secret(&key, &nonce, b"hello").unwrap();
    let b = seal_secret(&key, &nonce, b"hello").unwrap();
    assert_eq!(a, b);
    assert_eq!(&a[..12], &nonce[..]);
    assert_ne!(&a[12..17], b"hello");
    assert_eq!(decrypt_secret(&key, &a).unwrap(), b"hello".to_vec());
}

#[test]
fn secret_decryption_errors() {
    let key = encryption_key_from("k").unwrap();
    match decrypt_secret(&key, &[1, 2, 3]) {
        Err(AppError::Internal(m)) => assert_eq!(m, "無效的密文"),
        _ => panic!("expected Internal"),
    }
    let mut stored = encrypt_secret(&key, b"value").unwrap();
    let last = stored.len() - 1;
    stored[last] ^= 1;
    match decrypt_secret(&key, &stored) {
        Err(AppError::Internal(m)) => assert_eq!(m, "解密失敗: aead::Error"),
        _ => panic!("expected Internal"),
    }
    let other = encryption_key_from("other").unwrap();
    let stored = encrypt_secret(&key, b"value").unwrap();
    assert!(decrypt_secret(&other, &stored).is_err());
}

#[test]
fn access_token_records() {
    let raw = "A1".repeat(20);
    let t = token_record(&raw);
    assert_eq!(t.token, format!("gpt_{}", raw));
    assert_eq!(t.prefix, "gpt_A1A1A1A1");
    assert_eq!(t.hash, "268681c433736b6cf25d1cc6c81a93176693543d5982d0e45dda654b2752aa02");
    let fresh = new_access_token();
    assert_eq!(fresh.token.len(), 44);
    assert!(fresh.token.starts_with("gpt_"));
    assert!(fresh.token[4..].chars().all(|c| c.is_ascii_alphanumeric()));
    assert_eq!(fresh.prefix, fresh.token[..12].to_string());
    assert_eq!(fresh.hash.len(), 64);
    assert_ne!(new_access_token().token, fresh.token);
}

#[test]
fn readme_selection() {
    let names: Vec<String> = readme_candidates();
    assert_eq!(names, vec!["README.md".to_string(), "readme.md".to_string(), "Readme.md".to_string()]);
    assert_eq!(get_readme(&vec![None, Some(b"# Hi".to_vec()), Some(b"x".to_vec())]), Some("# Hi".to_string()));
    assert_eq!(get_readme(&vec![Some(vec![0xff, 0xfe]), None, Some(b"ok".to_vec())]), Some("ok".to_string()));
    assert_eq!(get_readme(&vec![None, None, None]), None);
}

#[test]
fn commit_listing_lines() {
    let c = commit_info("0123456789abcdef0123456789abcdef01234567", Some("init"), None, 0);
    assert_eq!(c.short_sha, "01234567");
    assert_eq!(c.message, "init");
    assert_eq!(c.author, "unknown");
    assert_eq!(c.time, "1970-01-01 00:00:00");
    let c = commit_info("fedcba9876543210", None, Some("alice"), 86400 + 3661);
    assert_eq!(c.message, "");
    assert_eq!(c.author, "alice");
    assert_eq!(c.time, "1970-01-02 01:01:01");
}

#[test]
fn merge_and_diff_texts() {
    assert_eq!(merge_message(3, "bob", "blog", "Fix typo"), "Merge pull request #3 from bob/blog: Fix typo");
    assert_eq!(delta_name(DeltaStatus::Added), "added");
    assert_eq!(delta_name(DeltaStatus::Renamed), "renamed");
    assert_eq!(delta_name(DeltaStatus::Other), "unknown");
    match missing_branch_error("gh-pages") {
        AppError::NotFound(m) => assert_eq!(m, "Branch 'gh-pages' not found"),
        _ => panic!("expected NotFound"),
    }
    match missing_source_dir_error("/docs") {
        AppError::NotFound(m) => assert_eq!(m, "Source dir '/docs' not found"),
        _ => panic!("expected NotFound"),
    }
    match git_command_error("Failed to clone repo", "fatal: nope") {
        AppError::Internal(m) => assert_eq!(m, "Failed to clone repo: fatal: nope"),
        _ => panic!("expected Internal"),
    }
}

#[test]
fn browsing_requests() {
    let (b, p) = tree_request("main", &TreeQuery { branch: None, path: None });
    assert_eq!((b.as_str(), p.as_str()), ("main", ""));
    let (b, p) = tree_request("main", &TreeQuery { branch: Some("dev".to_string()), path: Some("src".to_string()) });
    assert_eq!((b.as_str(), p.as_str()), ("dev", "src"));
    let (b, p, md) = blob_request("main", &BlobQuery { branch: None, path: "/docs/guide.markdown".to_string() });
    assert_eq!(b, "main");
    assert_eq!(p, "docs/guide.markdown");
    assert!(md);
    assert!(is_markdown_path("README.md"));
    assert!(!is_markdown_path("main.rs"));
    assert_eq!(readme_branch(&ReadmeQuery { branch: None }), "main");
    assert_eq!(readme_branch(&ReadmeQuery { branch: Some("x".to_string()) }), "x");
}

#[test]
fn process_table_register_get_unregister() {
    let mut t = ProcessTable::new();
    t.register(AppProcess { repo_id: 1, port: 4000, status: AppStatus::Running, pid: 10 });
    t.register(AppProcess { repo_id: 2, port: 4001, status: AppStatus::Deploying, pid: 11 });
    let p = t.get(1).unwrap();
    assert_eq!(p.port, 4000);
    assert!(p.status.is_running());
    assert_eq!(t.list().len(), 2);
    t.update_status(2, AppStatus::Stopped);
    assert!(matches!(t.get(2).unwrap().status, AppStatus::Stopped));
    assert!(!t.get(2).unwrap().status.is_active());
    t.unregister(1);
    assert!(t.get(1).is_none());
    assert_eq!(t.list().len(), 1);
}

#[test]
fn port_allocation_skips_used_ports() {
    let mut t = ProcessTable::new();
    assert_eq!(t.allocate_port(4000, 4003).unwrap(), 4000);
    t.register(AppProcess { repo_id: 1, port: 4000, status: AppStatus::Running, pid: 1 });
    t.register(AppProcess { repo_id: 2, port: 4001, status: AppStatus::Running, pid: 2 });
    assert_eq!(t.allocate_port(4000, 4003).unwrap(), 4002);
    match t.allocate_port(4000, 4002) {
        Err(AppError::Internal(m)) => assert_eq!(m, "No available ports"),
        _ => panic!("expected Internal"),
    }
}

#[test]
fn project_commands() {
    let plan = deploy_plan(ProjectType::Rust, &apps_config("", "", 0), Some("[package]\nname = \"todo-rust\"\n"));
    assert_eq!(plan.build, Some("cargo build --release".to_string()));
    assert_eq!(plan.start, "./target/release/todo-rust");
    let plan = deploy_plan(ProjectType::NodeJs, &apps_config("", "node server.js", 0), None);
    assert_eq!(plan.build, Some("npm install".to_string()));
    assert_eq!(plan.start, "node server.js");
    let plan = deploy_plan(ProjectType::Rust, &apps_config("", "", 0), None);
    assert_eq!(plan.start, "./target/release/app");
}

#[test]
fn checkout_subdirectories() {
    assert!(!source_is_subdir("/"));
    assert!(!source_is_subdir(""));
    assert!(!source_is_subdir("/./"));
    assert!(source_is_subdir("/dist"));
    assert!(source_is_subdir("app/web"));
    assert!(source_is_subdir(".."));
}

#[test]
fn app_start_environment() {
    let env = app_environment(4005, "{\"API_KEY\":\"k\",\"MODE\":\"prod\"}");
    assert_eq!(
        env,
        vec![
            ("PORT".to_string(), "4005".to_string()),
            ("HOST".to_string(), "127.0.0.1".to_string()),
            ("API_KEY".to_string(), "k".to_string()),
            ("MODE".to_string(), "prod".to_string()),
        ]
    );
    assert_eq!(app_environment(4005, "not json").len(), 2);
    assert_eq!(app_environment(4005, "{\"N\":1}").len(), 2);
}

#[test]
fn hosting_texts() {
    assert_eq!(text_lines("12\r\n34\n"), vec!["12".to_string(), "34".to_string()]);
    assert_eq!(text_lines(""), Vec::<String>::new());
    assert_eq!(text_lines("a\n\nb"), vec!["a".to_string(), "".to_string(), "b".to_string()]);
    assert_eq!(app_url("alice", "todo"), "/app/alice/todo");
    assert_eq!(
        deploy_failure_log(&AppError::Internal("Build failed:\nboom".to_string())),
        "Deploy failed: 伺服器錯誤: Build failed:\nboom"
    );
    match build_failure("boom") {
        AppError::Internal(m) => assert_eq!(m, "Build failed:\nboom"),
        _ => panic!("expected Internal"),
    }
}

#[test]
fn restoring_apps_at_startup() {
    let app = |port: i64| EnabledAppWithOwner {
        config: apps_config("", "", port),
        username: "alice".to_string(),
        repo_name: "todo".to_string(),
    };
    assert!(matches!(restore_step(&app(0), true), RestoreStep::SkipNoPort));
    assert!(matches!(restore_step(&app(65536), true), RestoreStep::SkipNoPort));
    assert!(matches!(restore_step(&app(4001), false), RestoreStep::SkipProcessMode));
    match restore_step(&app(4001), true) {
        RestoreStep::CheckContainer { repo_id, port } => {
            assert_eq!(repo_id, 9);
            assert_eq!(port, 4001);
        }
        _ => panic!("expected a container check"),
    }
    match after_container_check(9, 4001, Some(true)) {
        RestoreAction::Register(p) => {
            assert_eq!((p.repo_id, p.port, p.pid), (9, 4001, 0));
            assert!(p.status.is_running());
        }
        _ => panic!("expected Register"),
    }
    assert!(matches!(after_container_check(9, 4001, Some(false)), RestoreAction::Redeploy));
    assert!(matches!(after_container_check(9, 4001, None), RestoreAction::Report));
}

#[test]
fn login_claims() {
    let u = UserPublic { id: 3, username: "ann".to_string(), bio: String::new(), avatar_url: String::new(), created_at: String::new() };
    let c = Claims::for_user(&u, 1_700_000_000, 1_700_086_400);
    assert_eq!(c.sub, 3);
    assert_eq!(c.username, "ann");
    assert_eq!(c.iat, 1_700_000_000);
    assert_eq!(c.exp, 1_700_086_400);
}
