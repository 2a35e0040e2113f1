//! The claims carried by a login token.
use vstd::prelude::*;
use vstd::string::StrSliceExecFns;
use vstd::utf8::encode_utf8;
use argon2::{PasswordHasher, PasswordVerifier};
use crate::errors::AppError;
use crate::models::UserPublic;

verus! {

/// Who a token speaks for and when it was issued and expires (seconds since
/// the UNIX epoch).
pub struct Claims {
    pub sub: i64,
    pub username: String,
    pub exp: usize,
    pub iat: usize,
}

impl Claims {
    /// The claims for a user, issued and expiring at the given timestamps;
    /// each timestamp is stored as `usize`, as the token format wants it.
    pub fn for_user(user: &UserPublic, issued_at: i64, expires_at: i64) -> (c: Claims)
        ensures
            c.sub == user.id,
            c.username@ == user.username@,
            c.iat == issued_at as usize,
            c.exp == expires_at as usize,
    {
        Claims {
            sub: user.id,
            username: user.username.clone(),
            iat: #[verifier::truncate] (issued_at as usize),
            exp: #[verifier::truncate] (expires_at as usize),
        }
    }
}


// ───────────────────────── passwords ─────────────────────────

/// Whether a stored password hash reads as a PHC string (`PasswordHash::new`).
pub uninterp spec fn phc_parses(hash: Seq<char>) -> bool;

/// Whether Argon2 accepts `password` for the PHC string `hash`
/// (`Argon2::default().verify_password`).
pub uninterp spec fn phc_accepts(hash: Seq<char>, password: Seq<u8>) -> bool;

/// `Argon2::default().hash_password` with a salt from `SaltString::generate(OsRng)`,
/// as a PHC string; the error is given by its text. The salt is random, so no
/// particular hash is claimed; what is claimed, as the password-hash API
/// documents, is that the result parses and accepts the same password.
#[verifier::external_body]
fn argon2_hash(password: &[u8]) -> (r: Result<String, String>)
    ensures
        r matches Ok(h) ==> phc_parses(h@) && phc_accepts(h@, password@),
{
    let salt = argon2::password_hash::SaltString::generate(&mut rand::rngs::OsRng);
    match argon2::Argon2::default().hash_password(password, &salt) {
        Ok(h) => Ok(h.to_string()),
        Err(e) => Err(e.to_string()),
    }
}

/// `PasswordHash::new` on the stored hash, then
/// `Argon2::default().verify_password`: `Err` with the parse error's text when
/// the hash does not parse, else whether the password is accepted.
#[verifier::external_body]
fn argon2_verify(password: &[u8], hash: &str) -> (r: Result<bool, String>)
    ensures
        match r {
            Ok(b) => phc_parses(hash@) && b == phc_accepts(hash@, password@),
            Err(_) => !phc_parses(hash@),
        },
{
    match argon2::PasswordHash::new(hash) {
        Ok(parsed) => Ok(argon2::Argon2::default().verify_password(password, &parsed).is_ok()),
        Err(e) => Err(e.to_string()),
    }
}

/// A login with `password` succeeds against the stored `hash`.
pub open spec fn login_accepts(password: Seq<char>, hash: Seq<char>) -> bool {
    phc_parses(hash) && phc_accepts(hash, encode_utf8(password))
}

/// What registration makes of the hasher's answer: the PHC string to store,
/// or a server error carrying the hasher's error text.
pub fn stored_hash_of(hashed: Result<String, String>) -> (r: Result<String, AppError>)
    ensures
        match hashed {
            Ok(h) => r matches Ok(s) && s@ == h@,
            Err(m) => r matches Err(e) && e is Internal && e.msg() == "Hash error: "@ + m@,
        },
{
    match hashed {
        Ok(h) => Ok(h),
        Err(text) => {
            let mut m = String::from_str("Hash error: ");
            m.append(text.as_str());
            Err(AppError::Internal(m))
        },
    }
}

/// The hash stored for a new account's password. Whatever salt was drawn, a
/// login with the same password is accepted against it.
pub fn hash_new_password(password: &str) -> (r: Result<String, AppError>)
    ensures
        r matches Ok(h) ==> login_accepts(password@, h@),
        r matches Err(e) ==> e is Internal && e.msg().len() >= "Hash error: "@.len() && e.msg().take(
            "Hash error: "@.len() as int,
        ) == "Hash error: "@,
{
    let bytes = password.as_bytes_vec();
    let r = stored_hash_of(argon2_hash(bytes.as_slice()));
    proof {
        if r is Err {
            assert(r->Err_0.msg().take("Hash error: "@.len() as int) =~= "Hash error: "@);
        }
    }
    r
}

/// What a login makes of the verifier's answer: accepted, a wrong password,
/// or a stored hash that does not parse (a server error with the parser's text).
pub fn login_outcome(verified: Result<bool, String>) -> (r: Result<(), AppError>)
    ensures
        match verified {
            Ok(true) => r is Ok,
            Ok(false) => r matches Err(e) && e is Unauthorized && e.msg() == "使用者名稱或密碼錯誤"@,
            Err(m) => r matches Err(e) && e is Internal && e.msg() == "Parse hash error: "@ + m@,
        },
{
    match verified {
        Ok(true) => Ok(()),
        Ok(false) => Err(AppError::Unauthorized(String::from_str("使用者名稱或密碼錯誤"))),
        Err(text) => {
            let mut m = String::from_str("Parse hash error: ");
            m.append(text.as_str());
            Err(AppError::Internal(m))
        },
    }
}

/// Checks a login password against the stored hash: a hash that does not
/// parse is a server error, a wrong password is refused.
pub fn check_login(password: &str, stored_hash: &str) -> (r: Result<(), AppError>)
    ensures
        r is Ok <==> login_accepts(password@, stored_hash@),
        phc_parses(stored_hash@) && r is Err ==> (r matches Err(e) && e is Unauthorized && e.msg()
            == "使用者名稱或密碼錯誤"@),
        !phc_parses(stored_hash@) ==> (r matches Err(e) && e is Internal && e.msg().len()
            >= "Parse hash error: "@.len() && e.msg().take("Parse hash error: "@.len() as int)
            == "Parse hash error: "@),
{
    let bytes = password.as_bytes_vec();
    let r = login_outcome(argon2_verify(bytes.as_slice(), stored_hash));
    proof {
        if r is Err && r->Err_0 is Internal {
            assert(r->Err_0.msg().take("Parse hash error: "@.len() as int) =~= "Parse hash error: "@);
        }
    }
    r
}

/// The error for a failed account insert: a uniqueness violation (the
/// database message mentions `UNIQUE`) is a conflict, anything else a server
/// error carrying the database error's text.
pub fn registration_error(sqlite_message: Option<&str>, error_text: &str) -> (e: AppError)
    ensures
        (sqlite_message matches Some(m) && crate::text::contains(m@, "UNIQUE"@)) ==> (e is Conflict
            && e.msg() == "使用者名稱或 Email 已存在"@),
        !(sqlite_message matches Some(m) && crate::text::contains(m@, "UNIQUE"@)) ==> (e is Internal
            && e.msg() == "DB error: "@ + error_text@),
{
    if let Some(m) = sqlite_message {
        let v = crate::text::chars_of(m);
        let u = crate::text::chars_of("UNIQUE");
        assert(v@.subrange(0, v.len() as int) =~= m@);
        if crate::text::contains_in(&v, 0, v.len(), &u) {
            return AppError::Conflict(String::from_str("使用者名稱或 Email 已存在"));
        }
    }
    AppError::Internal(crate::text::concat2("DB error: ", error_text))
}

} // verus!
