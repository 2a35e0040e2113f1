//! Repository secrets (AES-256-GCM under a key derived from the configured
//! passphrase) and personal access tokens (random, stored only as a hash).
use vstd::prelude::*;
use vstd::utf8::encode_utf8;
use vstd::string::StrSliceExecFns;
use aes_gcm::aead::{AeadCore, AeadInPlace, KeyInit};
use rand::Rng;
use sha2::Digest;
use crate::errors::AppError;

verus! {

broadcast use vstd::string::group_string_axioms;

// ───────────────────────── outside names ─────────────────────────

/// The SHA-256 digest of a byte string.
pub uninterp spec fn sha256(data: Seq<u8>) -> Seq<u8>;

/// AES-256-GCM sealing with no associated data: ciphertext followed by the
/// 16-byte tag.
pub uninterp spec fn gcm_seal(key: Seq<u8>, nonce: Seq<u8>, plaintext: Seq<u8>) -> Seq<u8>;

/// AES-256-GCM opening with no associated data: the plaintext, or `None` when
/// the tag does not check out.
pub uninterp spec fn gcm_open(key: Seq<u8>, nonce: Seq<u8>, sealed: Seq<u8>) -> Option<Seq<u8>>;

#[verifier::external_type_specification]
#[verifier::external_body]
pub struct ExAeadError(aes_gcm::aead::Error);

/// The largest plaintext AES-GCM takes, in bytes (2^36).
pub open spec fn gcm_max_plaintext() -> int {
    0x10_0000_0000
}

/// `sha2::Sha256::digest`. The claim: the result is the function `sha256` of the
/// bytes, and is 32 bytes long (the digest size of SHA-256).
#[verifier::external_body]
fn sha256_digest(data: &[u8]) -> (r: Vec<u8>)
    ensures
        r@ == sha256(data@),
        r@.len() == 32,
{
    sha2::Sha256::digest(data).to_vec()
}

/// The lowercase hex digit of a value below 16.
pub open spec fn hex_digit(d: int) -> char {
    if d < 10 {
        (('0' as int) + d) as char
    } else {
        (('a' as int) + d - 10) as char
    }
}

/// Two lowercase hex digits per byte, most significant first.
pub open spec fn hex_lower(b: Seq<u8>) -> Seq<char>
    decreases b.len(),
{
    if b.len() == 0 {
        Seq::empty()
    } else {
        seq![hex_digit((b[0] / 16) as int), hex_digit((b[0] % 16) as int)] + hex_lower(b.drop_first())
    }
}

/// `hex_lower` of a concatenation is the concatenation of the parts' `hex_lower`.
proof fn lemma_hex_lower_append(a: Seq<u8>, b: Seq<u8>)
    ensures
        hex_lower(a + b) == hex_lower(a) + hex_lower(b),
    decreases a.len(),
{
    if a.len() == 0 {
        assert(a + b =~= b);
        assert(hex_lower(a) =~= Seq::<char>::empty());
        assert(hex_lower(a) + hex_lower(b) =~= hex_lower(b));
    } else {
        assert((a + b).drop_first() =~= a.drop_first() + b);
        assert((a + b)[0] == a[0]);
        lemma_hex_lower_append(a.drop_first(), b);
    }
}

/// The lowercase hex digit of a value below 16.
fn hex_char(d: u8) -> (c: char)
    requires
        d < 16,
    ensures
        c == hex_digit(d as int),
{
    let table: [char; 16] = ['0', '1', '2', '3', '4', '5', '6', '7', '8', '9', 'a', 'b', 'c', 'd', 'e', 'f'];
    let c = table[d as usize];
    assert(c == hex_digit(d as int)) by {
        assert(table@ =~= seq!['0', '1', '2', '3', '4', '5', '6', '7', '8', '9', 'a', 'b', 'c', 'd', 'e', 'f']);
    }
    c
}

/// Hex encoding (what `hex::encode` gives): every byte becomes two lowercase
/// hex digits, most significant first.
fn hex_encode(data: &[u8]) -> (r: String)
    ensures
        r@ == hex_lower(data@),
{
    let mut s = String::new();
    let mut i: usize = 0;
    while i < data.len()
        invariant
            i <= data@.len(),
            s@ == hex_lower(data@.take(i as int)),
        decreases data.len() - i,
    {
        let b = data[i];
        crate::text::push_char(&mut s, hex_char(b / 16));
        crate::text::push_char(&mut s, hex_char(b % 16));
        proof {
            let one = seq![b];
            assert(data@.take(i + 1) =~= data@.take(i as int) + one);
            lemma_hex_lower_append(data@.take(i as int), one);
            assert(one.drop_first() =~= Seq::<u8>::empty());
            assert(one[0] == b);
            assert(hex_lower(Seq::<u8>::empty()) =~= Seq::<char>::empty());
            assert(hex_lower(one.drop_first()) =~= Seq::<char>::empty());
            assert(hex_lower(one) =~= seq![hex_digit((b / 16) as int), hex_digit((b % 16) as int)]);
        }
        i = i + 1;
    }
    assert(data@.take(data@.len() as int) =~= data@);
    s
}

/// `Aes256Gcm::new` on the key, then `AeadInPlace::encrypt_in_place` with the
/// nonce and no associated data, on a copy of the plaintext. The claims: it
/// succeeds exactly when the plaintext is at most 2^36 bytes (the only check in
/// the source), and then gives `gcm_seal` of its arguments, 16 bytes longer than
/// the plaintext. Panics on a key that is not 32 bytes or a nonce that is not 12
/// bytes, which `requires` leaves out.
#[verifier::external_body]
fn aes_gcm_seal(key: &[u8], nonce: &[u8], plaintext: &[u8]) -> (r: Result<Vec<u8>, aes_gcm::aead::Error>)
    requires
        key@.len() == 32,
        nonce@.len() == 12,
    ensures
        (r is Ok) == (plaintext@.len() <= gcm_max_plaintext()),
        r matches Ok(c) ==> c@ == gcm_seal(key@, nonce@, plaintext@) && c@.len() == plaintext@.len() + 16,
{
    let cipher = aes_gcm::Aes256Gcm::new(aes_gcm::Key::<aes_gcm::Aes256Gcm>::from_slice(key));
    let mut buf = plaintext.to_vec();
    match cipher.encrypt_in_place(aes_gcm::Nonce::from_slice(nonce), &[], &mut buf) {
        Ok(()) => Ok(buf),
        Err(e) => Err(e),
    }
}

/// `Aes256Gcm::new` on the key, then `AeadInPlace::decrypt_in_place` with the
/// nonce and no associated data. The claims: the outcome is `gcm_open` of its
/// arguments, and opening what `gcm_seal` made of a plaintext (of a size that
/// sealing takes) under the same key and nonce gives that plaintext back, which
/// is what an AEAD cipher is for. Panics on a key that is not 32 bytes or a
/// nonce that is not 12 bytes, which `requires` leaves out.
#[verifier::external_body]
fn aes_gcm_open(key: &[u8], nonce: &[u8], sealed: &[u8]) -> (r: Result<Vec<u8>, aes_gcm::aead::Error>)
    requires
        key@.len() == 32,
        nonce@.len() == 12,
    ensures
        r matches Ok(p) ==> gcm_open(key@, nonce@, sealed@) == Some(p@),
        r is Err ==> gcm_open(key@, nonce@, sealed@) == None::<Seq<u8>>,
        forall|p: Seq<u8>|
            p.len() <= gcm_max_plaintext() && sealed@ == #[trigger] gcm_seal(key@, nonce@, p) ==> match r {
                Ok(q) => q@ == p,
                Err(_) => false,
            },
{
    let cipher = aes_gcm::Aes256Gcm::new(aes_gcm::Key::<aes_gcm::Aes256Gcm>::from_slice(key));
    let mut buf = sealed.to_vec();
    match cipher.decrypt_in_place(aes_gcm::Nonce::from_slice(nonce), &[], &mut buf) {
        Ok(()) => Ok(buf),
        Err(e) => Err(e),
    }
}

/// The text `aead::Error` prints (its `Display` impl writes `aead::Error`).
#[verifier::external_body]
fn aead_error_text(e: &aes_gcm::aead::Error) -> (s: String)
    ensures
        s@ == "aead::Error"@,
{
    format!("{}", e)
}

/// `Aes256Gcm::generate_nonce(&mut OsRng)`: 12 random bytes. Only the length is
/// claimed.
#[verifier::external_body]
fn random_nonce() -> (n: Vec<u8>)
    ensures
        n@.len() == 12,
{
    aes_gcm::Aes256Gcm::generate_nonce(&mut rand::rngs::OsRng).to_vec()
}

/// `thread_rng().sample_iter(&Alphanumeric).take(n).map(char::from).collect()`:
/// random characters. Claimed: there are `n` of them, each an ASCII letter or digit
/// (the sampling table of `Alphanumeric`).
#[verifier::external_body]
fn random_alphanumeric(n: usize) -> (s: String)
    ensures
        s@.len() == n,
        forall|i: int| 0 <= i < n ==> is_alnum(#[trigger] s@[i]),
{
    rand::thread_rng().sample_iter(&rand::distributions::Alphanumeric).take(n).map(char::from).collect()
}

// ───────────────────────── specifications ─────────────────────────

/// An ASCII letter or digit.
pub open spec fn is_alnum(c: char) -> bool {
    ('0' <= c <= '9') || ('A' <= c <= 'Z') || ('a' <= c <= 'z')
}

/// The encryption key derived from the configured passphrase: its SHA-256;
/// an empty passphrase gives none.
pub open spec fn derived_key(passphrase: Seq<char>) -> Option<Seq<u8>> {
    if passphrase.len() == 0 {
        None
    } else {
        Some(sha256(encode_utf8(passphrase)))
    }
}

/// How a secret is stored: the nonce, then the sealed value.
pub open spec fn stored_secret(key: Seq<u8>, nonce: Seq<u8>, plaintext: Seq<u8>) -> Seq<u8> {
    nonce + gcm_seal(key, nonce, plaintext)
}

/// `data` is the stored form of `plaintext` under `key` (with the nonce it carries).
pub open spec fn is_stored_form_of(data: Seq<u8>, key: Seq<u8>, plaintext: Seq<u8>) -> bool {
    &&& data.len() >= 12
    &&& plaintext.len() <= gcm_max_plaintext()
    &&& data == stored_secret(key, data.take(12), plaintext)
}

/// What decrypting stored data gives: too short is an error, otherwise the
/// cipher decides.
pub open spec fn decrypt_spec(key: Seq<u8>, data: Seq<u8>) -> Result<Seq<u8>, Seq<char>> {
    if data.len() < 12 {
        Err("無效的密文"@)
    } else {
        match gcm_open(key, data.take(12), data.skip(12)) {
            Some(p) => Ok(p),
            None => Err("解密失敗: "@ + "aead::Error"@),
        }
    }
}

/// The token prefix shown in listings: the first 12 characters.
pub open spec fn token_prefix(token: Seq<char>) -> Seq<char> {
    token.take(12)
}

/// The stored hash of a token: hex of the SHA-256 of its UTF-8 bytes.
pub open spec fn token_hash(token: Seq<char>) -> Seq<char> {
    hex_lower(sha256(encode_utf8(token)))
}

// ───────────────────────── executable code ─────────────────────────

/// The encryption key for a configured passphrase (`None` for an empty one,
/// which leaves encryption unconfigured).
pub fn encryption_key_from(passphrase: &str) -> (k: Option<Vec<u8>>)
    ensures
        match k {
            Some(v) => derived_key(passphrase@) == Some(v@) && v@.len() == 32,
            None => derived_key(passphrase@) == None::<Seq<u8>>,
        },
{
    if passphrase.is_empty() {
        return None;
    }
    let bytes = passphrase.as_bytes_vec();
    Some(sha256_digest(bytes.as_slice()))
}

/// Seals a secret under `key` with the given nonce and prepends the nonce.
pub fn seal_secret(key: &[u8], nonce: &[u8], plaintext: &[u8]) -> (r: Result<Vec<u8>, AppError>)
    requires
        key@.len() == 32,
        nonce@.len() == 12,
    ensures
        (r is Ok) == (plaintext@.len() <= gcm_max_plaintext()),
        r matches Ok(d) ==> d@ == stored_secret(key@, nonce@, plaintext@),
        r matches Err(e) ==> e is Internal && e.msg() == "加密失敗: "@ + "aead::Error"@,
{
    match aes_gcm_seal(key, nonce, plaintext) {
        Ok(sealed) => {
            let mut out: Vec<u8> = vstd::slice::slice_to_vec(nonce);
            let mut s = sealed;
            out.append(&mut s);
            Ok(out)
        },
        Err(e) => {
            let mut m = String::from_str("加密失敗: ");
            m.append(aead_error_text(&e).as_str());
            Err(AppError::Internal(m))
        },
    }
}

/// Encrypts a secret for storage under a fresh random nonce. Whatever nonce came
/// out, the stored form is that nonce followed by the sealed value, so it
/// decrypts back to the plaintext (see `decrypt_secret`).
pub fn encrypt_secret(key: &[u8], plaintext: &[u8]) -> (r: Result<Vec<u8>, AppError>)
    requires
        key@.len() == 32,
    ensures
        (r is Ok) == (plaintext@.len() <= gcm_max_plaintext()),
        r matches Ok(d) ==> is_stored_form_of(d@, key@, plaintext@),
        r matches Err(e) ==> e is Internal && e.msg() == "加密失敗: "@ + "aead::Error"@,
{
    let nonce = random_nonce();
    let r = seal_secret(key, nonce.as_slice(), plaintext);
    proof {
        if r is Ok {
            assert(r->Ok_0@.take(12) =~= nonce@);
        }
    }
    r
}

/// Decrypts a stored secret. Data shorter than a nonce is refused; otherwise
/// the cipher decides. Stored data made by `encrypt_secret` from a plaintext
/// always decrypts to that plaintext.
pub fn decrypt_secret(key: &[u8], data: &[u8]) -> (r: Result<Vec<u8>, AppError>)
    requires
        key@.len() == 32,
    ensures
        match decrypt_spec(key@, data@) {
            Ok(p) => r matches Ok(q) && q@ == p,
            Err(m) => r matches Err(e) && e is Internal && e.msg() == m,
        },
        forall|p: Seq<u8>| #[trigger] is_stored_form_of(data@, key@, p) ==> (r matches Ok(q) && q@ == p),
{
    if data.len() < 12 {
        return Err(AppError::Internal(String::from_str("無效的密文")));
    }
    let nonce: Vec<u8> = slice_range(data, 0, 12);
    let body: Vec<u8> = slice_range(data, 12, data.len());
    assert(nonce@ =~= data@.take(12));
    assert(body@ =~= data@.skip(12));
    let r = aes_gcm_open(key, nonce.as_slice(), body.as_slice());
    proof {
        assert forall|p: Seq<u8>| #[trigger] is_stored_form_of(data@, key@, p) implies (r matches Ok(q) && q@ == p) by {
            assert(data@.skip(12) =~= gcm_seal(key@, data@.take(12), p));
        }
    }
    match r {
        Ok(p) => Ok(p),
        Err(e) => {
            let mut m = String::from_str("解密失敗: ");
            m.append(aead_error_text(&e).as_str());
            Err(AppError::Internal(m))
        },
    }
}

/// A copy of `data[lo..hi]`.
fn slice_range(data: &[u8], lo: usize, hi: usize) -> (r: Vec<u8>)
    requires
        lo <= hi <= data@.len(),
    ensures
        r@ == data@.subrange(lo as int, hi as int),
{
    let mut r: Vec<u8> = Vec::new();
    let mut i = lo;
    while i < hi
        invariant
            lo <= i <= hi <= data@.len(),
            r@ == data@.subrange(lo as int, i as int),
        decreases hi - i,
    {
        r.push(data[i]);
        i = i + 1;
        assert(r@ =~= data@.subrange(lo as int, i as int));
    }
    r
}

/// A new personal access token as it is handed out and stored.
pub struct AccessTokenRecord {
    /// The token itself, shown to the user once.
    pub token: String,
    /// Its first 12 characters, kept for display.
    pub prefix: String,
    /// Hex SHA-256 of the token, the only form the database keeps.
    pub hash: String,
}

/// The record for a token made from random text `raw`: `gpt_` + `raw`, its
/// 12-character prefix, and its hash. `raw` must begin with 8 ASCII characters
/// so that the prefix ends on a character boundary.
pub fn token_record(raw: &str) -> (t: AccessTokenRecord)
    requires
        raw@.len() >= 8,
        forall|i: int| 0 <= i < 8 ==> (raw@[i] as u32) < 128,
    ensures
        t.token@ == "gpt_"@ + raw@,
        t.prefix@ == token_prefix(t.token@),
        t.hash@ == token_hash(t.token@),
{
    let mut token = String::from_str("gpt_");
    token.append(raw);
    proof {
        reveal_strlit("gpt_");
    }
    let chars = crate::text::chars_of(token.as_str());
    let prefix = crate::text::string_of_range(&chars, 0, 12);
    let bytes = token.as_str().as_bytes_vec();
    let digest = sha256_digest(bytes.as_slice());
    let hash = hex_encode(digest.as_slice());
    AccessTokenRecord { token, prefix, hash }
}

/// A fresh personal access token: `gpt_` followed by 40 random ASCII letters and
/// digits, with its prefix and hash.
pub fn new_access_token() -> (t: AccessTokenRecord)
    ensures
        t.token@.len() == 44,
        t.token@.take(4) == "gpt_"@,
        forall|i: int| 4 <= i < 44 ==> is_alnum(#[trigger] t.token@[i]),
        t.prefix@ == token_prefix(t.token@),
        t.hash@ == token_hash(t.token@),
{
    let raw = random_alphanumeric(40);
    proof {
        assert forall|i: int| 0 <= i < 8 implies (raw@[i] as u32) < 128 by {
            assert(is_alnum(raw@[i]));
        }
    }
    let t = token_record(raw.as_str());
    proof {
        reveal_strlit("gpt_");
        assert(t.token@.take(4) =~= "gpt_"@);
        assert forall|i: int| 4 <= i < 44 implies is_alnum(#[trigger] t.token@[i]) by {
            assert(t.token@[i] == raw@[i - 4]);
        }
    }
    t
}

} // verus!
