use vstd::prelude::*;
use vstd::utf8::encode_utf8;

verus! {

/// The public data of a user account.
#[derive(Debug, Clone)]
pub struct Userdata {
    pub id: u32,
    pub username: String,
    pub email: Option<String>,
}

/// The id of the user a request's session token belongs to.
#[derive(Debug, Clone, Copy)]
pub struct UserIdFromToken(pub u32);

/// Why a login was refused.
#[derive(Debug, Clone, Copy, PartialEq, Eq, Structural)]
pub enum LoginError {
    InvalidCredentials,
}

/// A login attempt.
#[derive(Debug, Clone)]
pub struct LoginRequest {
    pub username: String,
    pub password: String,
}

/// A successful login: the session token, as 32 upper-case hexadecimal digits.
#[derive(Debug, Clone)]
pub struct LoginResponse {
    pub token: String,
}

/// Why a registration was refused.
#[derive(Debug, Clone, Copy, PartialEq, Eq, Structural)]
pub enum RegistrationError {
    InvalidData,
}

/// A registration attempt.
#[derive(Debug, Clone)]
pub struct RegistrationRequest {
    pub username: String,
    pub email: String,
    pub password: String,
}

/// Why the data of the logged-in user could not be returned.
#[derive(Debug, Clone, Copy, PartialEq, Eq, Structural)]
pub enum GetMeError {
    NotFound,
}

/// The data of the logged-in user.
#[derive(Debug, Clone)]
pub struct GetMeResponse {
    pub userdata: Userdata,
}

/// Why the data of a user could not be returned.
#[derive(Debug, Clone, Copy, PartialEq, Eq, Structural)]
pub enum GetUserByIdError {
    NotFound,
}

/// The path of a user lookup.
#[derive(Debug, Clone, Copy)]
pub struct GetUserByIdPath {
    pub user_id: u32,
}

/// The data of a looked-up user.
#[derive(Debug, Clone)]
pub struct GetUserByIdResponse {
    pub userdata: Userdata,
}

/// Longest user name a registration accepts, in bytes.
pub const MAX_USERNAME_BYTES: usize = 16;

/// Longest e-mail address a registration accepts, in bytes.
pub const MAX_EMAIL_BYTES: usize = 64;

impl LoginError {
    /// The body of the error response.
    pub fn message(&self) -> (r: String)
        ensures
            r@ == "{\"error\":\"invalid-credentials\"}\n"@,
    {
        "{\"error\":\"invalid-credentials\"}\n".to_owned()
    }
}

impl RegistrationError {
    /// The body of the error response.
    pub fn message(&self) -> (r: String)
        ensures
            r@ == "{\"error\":\"invalid-data\"}\n"@,
    {
        "{\"error\":\"invalid-data\"}\n".to_owned()
    }
}

impl GetMeError {
    /// The body of the error response.
    pub fn message(&self) -> (r: String)
        ensures
            r@ == "{\"error\":\"not-found\"}\n"@,
    {
        "{\"error\":\"not-found\"}\n".to_owned()
    }
}

impl GetUserByIdError {
    /// The body of the error response.
    pub fn message(&self) -> (r: String)
        ensures
            r@ == "{\"error\":\"not-found\"}\n"@,
    {
        "{\"error\":\"not-found\"}\n".to_owned()
    }
}

/// Checks the lengths of a registration: the user name may take at most 16 bytes and the
/// e-mail address at most 64.
pub fn validate_registration(req: &RegistrationRequest) -> (r: Result<(), RegistrationError>)
    ensures
        r is Err <==> (encode_utf8(req.username@).len() > MAX_USERNAME_BYTES || encode_utf8(
            req.email@,
        ).len() > MAX_EMAIL_BYTES),
        r matches Err(e) ==> e == RegistrationError::InvalidData,
{
    if req.username.as_str().as_bytes().len() > MAX_USERNAME_BYTES || req.email.as_str().as_bytes().len()
        > MAX_EMAIL_BYTES {
        Err(RegistrationError::InvalidData)
    } else {
        Ok(())
    }
}

/// The Argon2 hash, in its encoded text form, of `pwd` salted with `salt` under the
/// default parameters (Argon2i, version 0x13, 4096 KiB, 3 passes, 1 lane, 32 bytes).
pub uninterp spec fn argon2_default_encoded(pwd: Seq<u8>, salt: Seq<u8>) -> Seq<char>;

/// Whether the default Argon2 parameters accept a password and salt of these lengths.
pub open spec fn argon2_accepts(pwd_len: nat, salt_len: nat) -> bool {
    8 <= salt_len <= u32::MAX && pwd_len <= u32::MAX
}

/// The error type of the `argon2` crate (`rust-argon2`), carried through unopened.
#[verifier::external_type_specification]
#[verifier::external_body]
pub struct ExArgon2Error(argon2::Error);

/// Calls `argon2::hash_encoded` with `argon2::Config::default()`. Claimed of it: it
/// succeeds exactly when the salt has between 8 and `u32::MAX` bytes and the password at
/// most `u32::MAX` (the only limits the default configuration leaves to the inputs), and
/// the hash then depends on the password and the salt alone.
#[verifier::external_body]
fn argon2_hash_encoded(pwd: &[u8], salt: &[u8]) -> (r: Result<String, argon2::Error>)
    ensures
        r is Ok <==> argon2_accepts(pwd@.len(), salt@.len()),
        r matches Ok(h) ==> h@ == argon2_default_encoded(pwd@, salt@),
{
    argon2::hash_encoded(pwd, salt, &argon2::Config::default())
}

/// Hashes a password for storage and comparison, salted with the server's secret. The
/// secret must take 8 to `u32::MAX` bytes and the password at most `u32::MAX`.
pub fn hash_password(password: &str, secret: &str) -> (r: String)
    requires
        argon2_accepts(encode_utf8(password@).len(), encode_utf8(secret@).len()),
    ensures
        r@ == argon2_default_encoded(encode_utf8(password@), encode_utf8(secret@)),
{
    argon2_hash_encoded(password.as_bytes(), secret.as_bytes()).unwrap()
}

/// The upper-case hexadecimal digit of `n` (below 16).
pub open spec fn hex_digit(n: u8) -> char {
    if n < 10 {
        (48 + n) as char
    } else {
        (55 + n) as char
    }
}

/// Each byte as two upper-case hexadecimal digits, high digit first.
pub open spec fn hex_upper(bytes: Seq<u8>) -> Seq<char>
    decreases bytes.len(),
{
    if bytes.len() == 0 {
        Seq::empty()
    } else {
        seq![hex_digit(bytes[0] / 16), hex_digit(bytes[0] % 16)] + hex_upper(bytes.drop_first())
    }
}

/// Calls `Simple::encode_upper` of the `uuid` crate on the UUID with these bytes. Claimed
/// of it: the text is the bytes in order, each as two upper-case hexadecimal digits.
#[verifier::external_body]
fn uuid_simple_upper(bytes: [u8; 16]) -> (r: String)
    ensures
        r@ == hex_upper(bytes@),
{
    uuid::Uuid::from_bytes(bytes).as_simple().encode_upper(&mut uuid::Uuid::encode_buffer()).to_owned()
}

/// What `Uuid::parse_str` of the `uuid` crate reads from a text: the UUID's 16 bytes, or
/// `None` if the text is no UUID in any of the forms it accepts.
pub uninterp spec fn uuid_parse(text: Seq<char>) -> Option<Seq<u8>>;

/// Calls `uuid::Uuid::parse_str`. Claimed of it: the outcome depends on the text alone
/// (named `uuid_parse`), and a text of 32 upper-case hexadecimal digits, the form
/// `Simple::encode_upper` writes, reads as the 16 bytes those digits spell.
#[verifier::external_body]
fn uuid_parse_str(text: &str) -> (r: Option<[u8; 16]>)
    ensures
        r is None <==> uuid_parse(text@) is None,
        r matches Some(b) ==> uuid_parse(text@) == Some(b@),
        forall|b: [u8; 16]| text@ == hex_upper(b@) ==> r == Some(b),
{
    match uuid::Uuid::parse_str(text) {
        Ok(u) => Some(*u.as_bytes()),
        Err(_) => None,
    }
}

/// Reads the session token a client sends with its requests; `None` if it is no UUID.
/// A token in the form the login response hands out is read back as the same bytes.
pub fn parse_session_token(token: &str) -> (r: Option<[u8; 16]>)
    ensures
        r is None <==> uuid_parse(token@) is None,
        r matches Some(b) ==> uuid_parse(token@) == Some(b@),
        forall|b: [u8; 16]| token@ == hex_upper(b@) ==> r == Some(b),
{
    uuid_parse_str(token)
}

impl LoginResponse {
    /// The response carrying the session token with these bytes.
    pub fn from_token(token: [u8; 16]) -> (r: LoginResponse)
        ensures
            r.token@ == hex_upper(token@),
    {
        LoginResponse { token: uuid_simple_upper(token) }
    }
}

/// The database key of a user id, or `None` if it does not fit the key column.
pub fn user_key(id: u32) -> (r: Option<i32>)
    ensures
        id <= i32::MAX ==> r == Some(id as i32),
        id > i32::MAX ==> r is None,
{
    if id <= i32::MAX as u32 {
        Some(id as i32)
    } else {
        None
    }
}

} // verus!
