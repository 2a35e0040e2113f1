//! The error type shared by every operation of the server.
use vstd::prelude::*;
use crate::text::concat2;

verus! {

broadcast use vstd::string::group_string_axioms;

/// An application error: a kind and a human-readable message.
#[derive(Debug, Clone)]
pub enum AppError {
    NotFound(String),
    Unauthorized(String),
    BadRequest(String),
    Internal(String),
    Conflict(String),
}

impl AppError {
    /// The message carried by the error.
    pub open spec fn msg(&self) -> Seq<char> {
        match self {
            AppError::NotFound(m) => m@,
            AppError::Unauthorized(m) => m@,
            AppError::BadRequest(m) => m@,
            AppError::Internal(m) => m@,
            AppError::Conflict(m) => m@,
        }
    }

    /// The label that the display form puts before the message.
    pub open spec fn label(&self) -> Seq<char> {
        match self {
            AppError::NotFound(_) => "找不到"@,
            AppError::Unauthorized(_) => "未授權"@,
            AppError::BadRequest(_) => "請求錯誤"@,
            AppError::Internal(_) => "伺服器錯誤"@,
            AppError::Conflict(_) => "衝突"@,
        }
    }

    /// The display form: label, `": "`, message.
    pub open spec fn display_spec(&self) -> Seq<char> {
        self.label() + ": "@ + self.msg()
    }

    /// The HTTP status that answers this error.
    pub open spec fn status_spec(&self) -> u16 {
        match self {
            AppError::NotFound(_) => 404,
            AppError::Unauthorized(_) => 401,
            AppError::BadRequest(_) => 400,
            AppError::Internal(_) => 500,
            AppError::Conflict(_) => 409,
        }
    }

    /// The human-readable form of the error (what `Display` prints).
    pub fn display_text(&self) -> (s: String)
        ensures
            s@ == self.display_spec(),
    {
        let (label, m) = match self {
            AppError::NotFound(m) => ("找不到: ", m),
            AppError::Unauthorized(m) => ("未授權: ", m),
            AppError::BadRequest(m) => ("請求錯誤: ", m),
            AppError::Internal(m) => ("伺服器錯誤: ", m),
            AppError::Conflict(m) => ("衝突: ", m),
        };
        proof {
            reveal_strlit("找不到: ");
            reveal_strlit("找不到");
            reveal_strlit("未授權: ");
            reveal_strlit("未授權");
            reveal_strlit("請求錯誤: ");
            reveal_strlit("請求錯誤");
            reveal_strlit("伺服器錯誤: ");
            reveal_strlit("伺服器錯誤");
            reveal_strlit("衝突: ");
            reveal_strlit("衝突");
            reveal_strlit(": ");
        }
        let s = concat2(label, m.as_str());
        assert(s@ =~= self.display_spec());
        s
    }

    /// The HTTP status code of the response for this error.
    pub fn status_code(&self) -> (code: u16)
        ensures
            code == self.status_spec(),
    {
        match self {
            AppError::NotFound(_) => 404,
            AppError::Unauthorized(_) => 401,
            AppError::BadRequest(_) => 400,
            AppError::Internal(_) => 500,
            AppError::Conflict(_) => 409,
        }
    }

    /// The message that goes into the `"error"` field of the response body.
    pub fn message(&self) -> (m: String)
        ensures
            m@ == self.msg(),
    {
        match self {
            AppError::NotFound(m) => m.clone(),
            AppError::Unauthorized(m) => m.clone(),
            AppError::BadRequest(m) => m.clone(),
            AppError::Internal(m) => m.clone(),
            AppError::Conflict(m) => m.clone(),
        }
    }

    /// A database failure, described by the database error's text.
    pub fn db_error(detail: &str) -> (e: AppError)
        ensures
            e is Internal,
            e.msg() == "資料庫錯誤: "@ + detail@,
    {
        AppError::Internal(concat2("資料庫錯誤: ", detail))
    }

    /// A git failure, described by the git error's text.
    pub fn git_error(detail: &str) -> (e: AppError)
        ensures
            e is Internal,
            e.msg() == "Git 錯誤: "@ + detail@,
    {
        AppError::Internal(concat2("Git 錯誤: ", detail))
    }

    /// A file-system failure, described by the I/O error's text.
    pub fn io_error(detail: &str) -> (e: AppError)
        ensures
            e is Internal,
            e.msg() == "IO 錯誤: "@ + detail@,
    {
        AppError::Internal(concat2("IO 錯誤: ", detail))
    }
}

} // verus!
