use gitpage::auth::{login_outcome, stored_hash_of};
use gitpage::docker::{lowered_limit_bytes, password_from_indices};
use gitpage::errors::AppError;
use gitpage::hosting::environment_with;
use gitpage::markdown::restore_math_html;
use gitpage::todo::{plan_with_fields, TodoAction};

#[test]
fn login_outcomes() {
    assert!(login_outcome(Ok(true)).is_ok());
    match login_outcome(Ok(false)) {
        Err(AppError::Unauthorized(m)) => assert_eq!(m, "使用者名稱或密碼錯誤"),
        _ => panic!("expected Unauthorized"),
    }
    match login_outcome(Err("invalid hash".to_string())) {
        Err(AppError::Internal(m)) => assert_eq!(m, "Parse hash error: invalid hash"),
        _ => panic!("expected Internal"),
    }
}

#[test]
fn stored_hash_outcomes() {
    assert_eq!(stored_hash_of(Ok("$argon2id$v=19$x".to_string())).unwrap(), "$argon2id$v=19$x");
    match stored_hash_of(Err("salt too short".to_string())) {
        Err(AppError::Internal(m)) => assert_eq!(m, "Hash error: salt too short"),
        _ => panic!("expected Internal"),
    }
}

#[test]
fn lowered_memory_limits() {
    assert_eq!(lowered_limit_bytes("2g"), Some(Some(2147483648)));
    assert_eq!(lowered_limit_bytes("3kk"), Some(Some(3072)));
    assert_eq!(lowered_limit_bytes("x"), Some(None));
    assert_eq!(lowered_limit_bytes("9000000000000g"), None);
}

#[test]
fn passwords_from_indices() {
    assert_eq!(password_from_indices(&vec![0, 25, 26, 35]), "az09");
    assert_eq!(password_from_indices(&vec![]), "");
}

#[test]
fn environment_from_parsed_vars() {
    let env = environment_with(80, Some(vec![("PORT".to_string(), "9".to_string())]));
    assert_eq!(
        env,
        vec![
            ("PORT".to_string(), "80".to_string()),
            ("HOST".to_string(), "127.0.0.1".to_string()),
            ("PORT".to_string(), "9".to_string()),
        ]
    );
    assert_eq!(environment_with(7, None).len(), 2);
}

#[test]
fn math_restored_into_html() {
    let html = "<p>a \u{0}M0D\u{0} b \u{0}M1I\u{0}</p>".to_string();
    let blocks = vec![
        ("\u{0}M0D\u{0}".to_string(), "$$x^2$$".to_string()),
        ("\u{0}M1I\u{0}".to_string(), "y".to_string()),
    ];
    assert_eq!(
        restore_math_html(html, &blocks),
        "<p>a <div class=\"math-display\">\\[x^2 \\]</div> b <span class=\"math-inline\">\\(y\\)</span></p>"
    );
}

#[test]
fn todo_plans_from_fields() {
    match plan_with_fields("POST", "/api/todos", Some("  milk ".to_string()), None) {
        TodoAction::CreateTodo { title } => assert_eq!(title, "milk"),
        _ => panic!("expected CreateTodo"),
    }
    match plan_with_fields("POST", "/api/todos", None, None) {
        TodoAction::Reply { status, body } => {
            assert_eq!(status, "400 Bad Request");
            assert_eq!(body, "{\"error\":\"Title required\"}");
        }
        _ => panic!("expected Reply"),
    }
    match plan_with_fields("PUT", "/api/todos/7", None, Some(true)) {
        TodoAction::SetDone { id, done } => assert_eq!((id, done), (7, true)),
        _ => panic!("expected SetDone"),
    }
    match plan_with_fields("PUT", "/api/todos/7", None, None) {
        TodoAction::SetDone { id, done } => assert_eq!((id, done), (7, false)),
        _ => panic!("expected SetDone"),
    }
}
