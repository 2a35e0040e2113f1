use axum::http::StatusCode;
use gitpage::errors::AppError;

#[test]
fn test_not_found_status() {
    let err = AppError::NotFound("repo not found".to_string());
    assert_eq!(err.status_code(), StatusCode::NOT_FOUND.as_u16());
}

#[test]
fn test_unauthorized_status() {
    let err = AppError::Unauthorized("login required".to_string());
    assert_eq!(err.status_code(), StatusCode::UNAUTHORIZED.as_u16());
}

#[test]
fn test_bad_request_status() {
    let err = AppError::BadRequest("invalid input".to_string());
    assert_eq!(err.status_code(), StatusCode::BAD_REQUEST.as_u16());
}

#[test]
fn test_internal_status() {
    let err = AppError::Internal("server error".to_string());
    assert_eq!(err.status_code(), StatusCode::INTERNAL_SERVER_ERROR.as_u16());
}

#[test]
fn test_conflict_status() {
    let err = AppError::Conflict("already exists".to_string());
    assert_eq!(err.status_code(), StatusCode::CONFLICT.as_u16());
}

#[test]
fn test_display_format() {
    let err = AppError::NotFound("頁面不存在".to_string());
    let msg = err.display_text();
    assert!(msg.contains("找不到"));
    assert!(msg.contains("頁面不存在"));
}

#[test]
fn test_display_unauthorized() {
    let err = AppError::Unauthorized("請先登入".to_string());
    let msg = err.display_text();
    assert!(msg.contains("未授權"));
}

#[test]
fn test_display_bad_request() {
    let err = AppError::BadRequest("參數錯誤".to_string());
    let msg = err.display_text();
    assert!(msg.contains("請求錯誤"));
}

#[test]
fn test_display_internal() {
    let err = AppError::Internal("資料庫連線失敗".to_string());
    let msg = err.display_text();
    assert!(msg.contains("伺服器錯誤"));
}

#[test]
fn test_display_conflict() {
    let err = AppError::Conflict("名稱已被使用".to_string());
    let msg = err.display_text();
    assert!(msg.contains("衝突"));
}

#[test]
fn test_from_rusqlite_error() {
    let sqlite_err = rusqlite::Error::InvalidParameterName("?99".to_string());
    let app_err = AppError::db_error(&sqlite_err.to_string());
    match app_err {
        AppError::Internal(msg) => assert!(msg.contains("資料庫錯誤")),
        _ => panic!("expected Internal variant"),
    }
}

#[test]
fn test_from_io_error() {
    let io_err = std::io::Error::new(std::io::ErrorKind::NotFound, "file not found");
    let app_err = AppError::io_error(&io_err.to_string());
    match app_err {
        AppError::Internal(msg) => assert!(msg.contains("IO 錯誤")),
        _ => panic!("expected Internal variant"),
    }
}

#[test]
fn display_text_is_label_colon_message() {
    let err = AppError::NotFound("頁面不存在".to_string());
    assert_eq!(err.display_text(), "找不到: 頁面不存在");
    assert_eq!(AppError::Conflict("x".to_string()).display_text(), "衝突: x");
}

#[test]
fn message_and_wrapped_errors() {
    assert_eq!(AppError::BadRequest("參數錯誤".to_string()).message(), "參數錯誤");
    match AppError::git_error("not a repo") {
        AppError::Internal(m) => assert_eq!(m, "Git 錯誤: not a repo"),
        _ => panic!("expected Internal"),
    }
    match AppError::db_error("locked") {
        AppError::Internal(m) => assert_eq!(m, "資料庫錯誤: locked"),
        _ => panic!("expected Internal"),
    }
    match AppError::io_error("gone") {
        AppError::Internal(m) => assert_eq!(m, "IO 錯誤: gone"),
        _ => panic!("expected Internal"),
    }
}
