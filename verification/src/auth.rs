use vstd::prelude::*;

use crate::text::{has_prefix, str_eq, str_strip_prefix};

verus! {

/// The administrator name used when none is configured.
pub const DEFAULT_ADMIN_USERNAME: &'static str = "admin";

/// The administrator password used when none is configured.
pub const DEFAULT_ADMIN_PASSWORD: &'static str = "admin123";

/// The token signing secret used when none is configured.
pub const DEFAULT_ADMIN_SECRET: &'static str = "change-me-to-a-random-string";

/// Seconds for which a login token is valid (one day).
pub const TOKEN_LIFETIME_SECS: i64 = 86400;

/// The claims of an admin token.
#[derive(Debug, Clone, PartialEq, Eq)]
pub struct Claims {
    pub sub: String,
    pub exp: usize,
    pub role: String,
}

#[derive(Debug)]
pub struct LoginRequest {
    pub username: String,
    pub password: String,
}

#[derive(Debug)]
pub struct LoginResponse {
    pub token: String,
    pub username: String,
}

#[derive(Debug, PartialEq, Eq, Structural)]
pub struct DashboardStats {
    pub total_devices: usize,
    pub active_sessions: usize,
    pub blocked_count: usize,
}

#[derive(Debug, PartialEq, Eq, Structural)]
pub struct ApiOk {
    pub ok: bool,
}

#[derive(Debug)]
pub struct BlockRequest {
    pub machine_id: String,
    pub reason: String,
}

#[derive(Debug)]
pub struct UnblockRequest {
    pub machine_id: String,
}

/// Why an admin request or login is refused (all answered 401, except a
/// failure to sign a token, answered 500).
#[derive(Debug, Clone, Copy, PartialEq, Eq, Structural)]
pub enum AuthError {
    /// No `Authorization` header.
    MissingHeader,
    /// The header does not start with `Bearer `.
    InvalidFormat,
    /// The token is not validly signed by the admin secret.
    AuthenticationFailed,
    /// The token is not an admin token.
    NotAuthorized,
    /// The token's expiry lies in the past.
    TokenExpired,
    /// Wrong user name or password.
    InvalidCredentials,
}

/// The admin settings after defaults are filled in.
#[derive(Debug)]
pub struct AdminSettings {
    pub username: String,
    pub password: String,
    pub secret: String,
}

pub open spec fn or_default(v: Option<Seq<char>>, d: Seq<char>) -> Seq<char> {
    match v {
        Some(s) => s,
        None => d,
    }
}

fn string_or_default(v: Option<String>, d: &str) -> (r: String)
    ensures
        r@ == or_default(
            match v {
                Some(s) => Some(s@),
                None => None,
            },
            d@,
        ),
{
    match v {
        Some(s) => s,
        None => d.to_owned(),
    }
}

impl AdminSettings {
    /// Fills in the defaults for settings that are not configured.
    pub fn with_defaults(username: Option<String>, password: Option<String>, secret: Option<String>) -> (r: Self)
        ensures
            r.username@ == or_default(
                match username {
                    Some(s) => Some(s@),
                    None => None,
                },
                DEFAULT_ADMIN_USERNAME@,
            ),
            r.password@ == or_default(
                match password {
                    Some(s) => Some(s@),
                    None => None,
                },
                DEFAULT_ADMIN_PASSWORD@,
            ),
            r.secret@ == or_default(
                match secret {
                    Some(s) => Some(s@),
                    None => None,
                },
                DEFAULT_ADMIN_SECRET@,
            ),
    {
        AdminSettings {
            username: string_or_default(username, DEFAULT_ADMIN_USERNAME),
            password: string_or_default(password, DEFAULT_ADMIN_PASSWORD),
            secret: string_or_default(secret, DEFAULT_ADMIN_SECRET),
        }
    }

    /// The PHC hash of the configured password, against which logins are
    /// checked. The configured password verifies against it.
    pub fn password_hash(&self) -> (r: String)
        requires
            vstd::utf8::encode_utf8(self.password@).len() <= u32::MAX,
        ensures
            password_verifies(vstd::utf8::encode_utf8(self.password@), r@),
    {
        generate_password_hash(self.password.as_str())
    }

    /// Whether the password or the signing secret is still the default
    /// (a warning is logged at start-up).
    pub fn uses_default_credentials(&self) -> (r: bool)
        ensures
            r == (self.password@ == DEFAULT_ADMIN_PASSWORD@ || self.secret@ == DEFAULT_ADMIN_SECRET@),
    {
        str_eq(self.password.as_str(), DEFAULT_ADMIN_PASSWORD) || str_eq(
            self.secret.as_str(),
            DEFAULT_ADMIN_SECRET,
        )
    }
}

/// What the `Authorization` header yields: the token after `Bearer `.
pub open spec fn bearer_spec(header: Option<Seq<char>>) -> Result<Seq<char>, AuthError> {
    match header {
        None => Err(AuthError::MissingHeader),
        Some(h) => if has_prefix(h, "Bearer "@) {
            Ok(h.subrange("Bearer "@.len() as int, h.len() as int))
        } else {
            Err(AuthError::InvalidFormat)
        },
    }
}

/// Extracts the token of an `Authorization: Bearer <token>` header.
pub fn bearer_token(header: Option<&str>) -> (r: Result<&str, AuthError>)
    ensures
        match r {
            Ok(t) => bearer_spec(
                match header {
                    Some(h) => Some(h@),
                    None => None,
                },
            ) == Ok::<Seq<char>, AuthError>(t@),
            Err(e) => bearer_spec(
                match header {
                    Some(h) => Some(h@),
                    None => None,
                },
            ) == Err::<Seq<char>, AuthError>(e),
        },
{
    match header {
        None => Err(AuthError::MissingHeader),
        Some(h) => match str_strip_prefix(h, "Bearer ") {
            Some(t) => Ok(t),
            None => Err(AuthError::InvalidFormat),
        },
    }
}

/// What a correctly signed token is worth at time `now` (seconds): an
/// admin role is required first, then an expiry not in the past.
pub open spec fn claims_verdict(claims: Claims, now: usize) -> Result<Claims, AuthError> {
    if claims.role@ != "admin"@ {
        Err(AuthError::NotAuthorized)
    } else if claims.exp < now {
        Err(AuthError::TokenExpired)
    } else {
        Ok(claims)
    }
}

/// Checks the claims of a token whose signature was verified.
pub fn check_claims(claims: Claims, now: usize) -> (r: Result<Claims, AuthError>)
    ensures
        r == claims_verdict(claims, now),
{
    if !str_eq(claims.role.as_str(), "admin") {
        return Err(AuthError::NotAuthorized);
    }
    if claims.exp < now {
        return Err(AuthError::TokenExpired);
    }
    Ok(claims)
}

/// The claims (subject, expiry, role) that `token` carries when it is a JWT
/// whose HMAC-SHA256 signature verifies under the key `secret` (its UTF-8
/// bytes), as `jwt`'s `verify_with_key` decides it; `None` when the token
/// is not such a JWT or its claims lack one of the three.
pub uninterp spec fn jwt_hs256_claims(secret: Seq<char>, token: Seq<char>) -> Option<(Seq<char>, usize, Seq<char>)>;

/// Calls `jwt::VerifyWithKey::verify_with_key(token, &key)` with `key` the
/// `Hmac<Sha256>` of the secret's bytes (`new_from_slice`, which takes a key
/// of any length), decoding the payload as a JSON object, and moves the
/// `sub` (string), `exp` (unsigned integer) and `role` (string) members
/// out. Claims: the result is `jwt_hs256_claims` of the secret and the
/// token, a function of those two alone (the crate checks the header's
/// algorithm, then the signature over the first two parts). Which tokens
/// verify is not stated.
#[verifier::external_body]
fn jwt_verify_hs256(secret: &str, token: &str) -> (r: Option<Claims>)
    ensures
        match r {
            Some(c) => jwt_hs256_claims(secret@, token@) == Some(claims_view(c)),
            None => jwt_hs256_claims(secret@, token@) is None,
        },
{
    let key: hmac::Hmac<sha2::Sha256> = hmac::Mac::new_from_slice(secret.as_bytes()).ok()?;
    let m: std::collections::BTreeMap<String, serde_json::Value> = jwt::VerifyWithKey::verify_with_key(token, &key).ok()?;
    match (m.get("sub"), m.get("exp").and_then(|e| e.as_u64()), m.get("role")) {
        (Some(serde_json::Value::String(sub)), Some(exp), Some(serde_json::Value::String(role))) => Some(
            Claims { sub: sub.clone(), exp: usize::try_from(exp).ok()?, role: role.clone() },
        ),
        _ => None,
    }
}

/// Calls `jwt::SignWithKey::sign_with_key` on the claims as a JSON object
/// (`sub`, `exp`, `role`) with the `Hmac<Sha256>` key of the secret's bytes.
/// Claims: a token it returns verifies under the same secret and carries
/// those claims (the header it writes names HS256, and the crate's own
/// tests sign and verify in this way). Whether it returns a token is not
/// stated.
#[verifier::external_body]
fn jwt_sign_hs256(secret: &str, claims: &Claims) -> (r: Option<String>)
    ensures
        r matches Some(t) ==> jwt_hs256_claims(secret@, t@) == Some(claims_view(*claims)),
{
    let key: hmac::Hmac<sha2::Sha256> = hmac::Mac::new_from_slice(secret.as_bytes()).ok()?;
    let mut m = std::collections::BTreeMap::new();
    m.insert("sub".to_owned(), serde_json::Value::from(claims.sub.as_str()));
    m.insert("exp".to_owned(), serde_json::Value::from(claims.exp));
    m.insert("role".to_owned(), serde_json::Value::from(claims.role.as_str()));
    jwt::SignWithKey::sign_with_key(m, &key).ok()
}

/// What a claims check gives, over the claims' view.
pub open spec fn claims_verdict_view(c: (Seq<char>, usize, Seq<char>), now: usize) -> Result<
    (Seq<char>, usize, Seq<char>),
    AuthError,
> {
    if c.2 != "admin"@ {
        Err(AuthError::NotAuthorized)
    } else if c.1 < now {
        Err(AuthError::TokenExpired)
    } else {
        Ok(c)
    }
}

pub open spec fn auth_result_view(r: Result<Claims, AuthError>) -> Result<(Seq<char>, usize, Seq<char>), AuthError> {
    match r {
        Ok(c) => Ok(claims_view(c)),
        Err(e) => Err(e),
    }
}

/// The answer to a bearer token at time `now` (seconds): a token that does
/// not verify under the secret is refused as `AuthenticationFailed`; the
/// claims of one that does are then checked (admin role, then expiry).
pub open spec fn token_verdict(secret: Seq<char>, token: Seq<char>, now: usize) -> Result<
    (Seq<char>, usize, Seq<char>),
    AuthError,
> {
    match jwt_hs256_claims(secret, token) {
        None => Err(AuthError::AuthenticationFailed),
        Some(c) => claims_verdict_view(c, now),
    }
}

/// Verifies an admin token against the signing secret at time `now`.
pub fn verify_token(secret: &str, token: &str, now: usize) -> (r: Result<Claims, AuthError>)
    ensures
        auth_result_view(r) == token_verdict(secret@, token@, now),
{
    match jwt_verify_hs256(secret, token) {
        None => Err(AuthError::AuthenticationFailed),
        Some(c) => {
            let r = check_claims(c, now);
            assert(auth_result_view(r) == claims_verdict_view(claims_view(c), now));
            r
        },
    }
}

/// Signs admin claims into a token with the signing secret; `None` when
/// signing fails.
pub fn sign_token(secret: &str, claims: &Claims) -> (r: Option<String>)
    ensures
        r matches Some(t) ==> jwt_hs256_claims(secret@, t@) == Some(claims_view(*claims)),
{
    jwt_sign_hs256(secret, claims)
}

/// Whether `password` matches the PHC hash `hash`, as
/// `password_auth::verify_password` decides.
pub uninterp spec fn password_verifies(password: Seq<u8>, hash: Seq<char>) -> bool;

/// Calls `password_auth::verify_password(password, hash).is_ok()`.
/// Claims: the answer is a function of the password bytes and the hash
/// text alone (the crate parses the hash and re-derives it with the salt
/// and parameters it holds); which pairs match is not stated.
#[verifier::external_body]
fn verify_password(password: &[u8], hash: &str) -> (r: bool)
    ensures
        r == password_verifies(password@, hash@),
{
    password_auth::verify_password(password, hash).is_ok()
}

/// Calls `password_auth::generate_hash(password)`, which hashes the
/// password's UTF-8 bytes with a fresh random salt (Argon2 with its default
/// parameters) and returns the PHC string. Claims: `verify_password` accepts
/// the same password against the result (the crate's own round-trip test
/// checks this). The salt, and so the text, is random and is not stated.
/// Argon2 refuses passwords longer than `u32::MAX` bytes, on which
/// `generate_hash` panics; `requires` leaves them out.
#[verifier::external_body]
fn generate_password_hash(password: &str) -> (r: String)
    requires
        vstd::utf8::encode_utf8(password@).len() <= u32::MAX,
    ensures
        password_verifies(vstd::utf8::encode_utf8(password@), r@),
{
    password_auth::generate_hash(password)
}

/// The stored password hash of a user created from a token: the hash of the
/// token text itself, against which that token verifies as a password.
pub fn token_user_password_hash(token: &str) -> (r: String)
    requires
        vstd::utf8::encode_utf8(token@).len() <= u32::MAX,
    ensures
        password_verifies(vstd::utf8::encode_utf8(token@), r@),
{
    generate_password_hash(token)
}

/// The claims issued at login time `now` (seconds): subject the user name,
/// role admin, expiry one day later (the timestamp cast to `usize` as `as`
/// does).
pub open spec fn login_claims(username: Seq<char>, now: i64) -> (Seq<char>, usize, Seq<char>) {
    (username, (now + TOKEN_LIFETIME_SECS) as usize, "admin"@)
}

/// The outcome of a login: the user name must be the admin's, then the
/// password must match the stored hash.
pub open spec fn login_verdict(
    username: Seq<char>,
    password: Seq<u8>,
    admin_username: Seq<char>,
    admin_password_hash: Seq<char>,
    now: i64,
) -> Result<(Seq<char>, usize, Seq<char>), AuthError> {
    if username != admin_username {
        Err(AuthError::InvalidCredentials)
    } else if !password_verifies(password, admin_password_hash) {
        Err(AuthError::InvalidCredentials)
    } else {
        Ok(login_claims(username, now))
    }
}

pub open spec fn claims_view(c: Claims) -> (Seq<char>, usize, Seq<char>) {
    (c.sub@, c.exp, c.role@)
}

/// Checks a login and issues the token claims.
pub fn authenticate(
    req: &LoginRequest,
    admin_username: &String,
    admin_password_hash: &String,
    now: i64,
) -> (r: Result<Claims, AuthError>)
    requires
        now + TOKEN_LIFETIME_SECS <= i64::MAX,
    ensures
        r matches Ok(c) ==> c.sub@ == req.username@ && c.role@ == "admin"@ && c.exp == (now
            + TOKEN_LIFETIME_SECS) as usize,
        match r {
            Ok(c) => login_verdict(
                req.username@,
                vstd::utf8::encode_utf8(req.password@),
                admin_username@,
                admin_password_hash@,
                now,
            ) == Ok::<(Seq<char>, usize, Seq<char>), AuthError>(claims_view(c)),
            Err(e) => login_verdict(
                req.username@,
                vstd::utf8::encode_utf8(req.password@),
                admin_username@,
                admin_password_hash@,
                now,
            ) == Err::<(Seq<char>, usize, Seq<char>), AuthError>(e),
        },
{
    if req.username != *admin_username {
        return Err(AuthError::InvalidCredentials);
    }
    if !verify_password(req.password.as_str().as_bytes(), admin_password_hash.as_str()) {
        return Err(AuthError::InvalidCredentials);
    }
    let exp = (now + TOKEN_LIFETIME_SECS) as usize;
    Ok(Claims { sub: req.username.clone(), exp: exp, role: "admin".to_owned() })
}

/// The dashboard figures: devices are the sessions plus the reported peers.
pub fn dashboard_stats(sessions: usize, blocked: u64, reported_peers: usize) -> (r: DashboardStats)
    requires
        sessions + reported_peers <= usize::MAX,
    ensures
        r.total_devices == sessions + reported_peers,
        r.active_sessions == sessions,
        r.blocked_count == blocked as usize,
{
    DashboardStats {
        total_devices: sessions + reported_peers,
        active_sessions: sessions,
        blocked_count: blocked as usize,
    }
}

/// A token is accepted at time `now` only if it is an admin token that has
/// not expired; every other role is refused whatever its expiry.
pub proof fn lemma_only_live_admin_tokens_pass(claims: Claims, now: usize)
    ensures
        claims_verdict(claims, now) is Ok <==> (claims.role@ == "admin"@ && claims.exp >= now),
        claims.role@ != "admin"@ ==> claims_verdict(claims, now) == Err::<Claims, AuthError>(
            AuthError::NotAuthorized,
        ),
{
}

/// A login with another user name is refused before the password is
/// looked at.
pub proof fn lemma_wrong_user_refused(
    username: Seq<char>,
    password: Seq<u8>,
    admin_username: Seq<char>,
    admin_password_hash: Seq<char>,
    now: i64,
)
    requires
        username != admin_username,
    ensures
        login_verdict(username, password, admin_username, admin_password_hash, now) == Err::<
            (Seq<char>, usize, Seq<char>),
            AuthError,
        >(AuthError::InvalidCredentials),
{
}

/// A token issued at login passes the claims check at every time up to one
/// day after issue, and is refused as expired afterwards.
pub proof fn lemma_issued_token_valid_for_a_day(claims: Claims, username: Seq<char>, issued: i64, now: usize)
    requires
        claims_view(claims) == login_claims(username, issued),
        0 <= issued,
        issued + TOKEN_LIFETIME_SECS <= usize::MAX,
    ensures
        now <= issued + TOKEN_LIFETIME_SECS ==> claims_verdict(claims, now) == Ok::<Claims, AuthError>(claims),
        now > issued + TOKEN_LIFETIME_SECS ==> claims_verdict(claims, now) == Err::<Claims, AuthError>(
            AuthError::TokenExpired,
        ),
{
}

/// The configured administrator can log in: with the admin's own name and
/// a password that verifies against the stored hash (as the hash made from
/// the configured password does), a login succeeds and is issued the admin
/// claims for the login time.
pub proof fn lemma_configured_admin_logs_in(
    admin_username: Seq<char>,
    password: Seq<char>,
    admin_password_hash: Seq<char>,
    now: i64,
)
    requires
        password_verifies(vstd::utf8::encode_utf8(password), admin_password_hash),
    ensures
        login_verdict(
            admin_username,
            vstd::utf8::encode_utf8(password),
            admin_username,
            admin_password_hash,
            now,
        ) == Ok::<(Seq<char>, usize, Seq<char>), AuthError>(login_claims(admin_username, now)),
{
}

/// A token signed at login, with the secret it is later checked against,
/// is accepted with the login's claims up to one day after issue and
/// refused as expired afterwards.
pub proof fn lemma_login_token_valid_for_a_day(
    secret: Seq<char>,
    token: Seq<char>,
    username: Seq<char>,
    issued: i64,
    now: usize,
)
    requires
        jwt_hs256_claims(secret, token) == Some(login_claims(username, issued)),
        0 <= issued,
        issued + TOKEN_LIFETIME_SECS <= usize::MAX,
    ensures
        now <= issued + TOKEN_LIFETIME_SECS ==> token_verdict(secret, token, now) == Ok::<
            (Seq<char>, usize, Seq<char>),
            AuthError,
        >(login_claims(username, issued)),
        now > issued + TOKEN_LIFETIME_SECS ==> token_verdict(secret, token, now) == Err::<
            (Seq<char>, usize, Seq<char>),
            AuthError,
        >(AuthError::TokenExpired),
{
}

/// A token that does not verify under the secret is refused as
/// `AuthenticationFailed`, whatever the time.
pub proof fn lemma_unverified_token_refused(secret: Seq<char>, token: Seq<char>, now: usize)
    requires
        jwt_hs256_claims(secret, token) is None,
    ensures
        token_verdict(secret, token, now) == Err::<(Seq<char>, usize, Seq<char>), AuthError>(
            AuthError::AuthenticationFailed,
        ),
{
}

/// A successful login issues claims for the user who logged in: the subject
/// is the name given, the role is admin, and the expiry is one day after the
/// login time.
pub proof fn lemma_login_names_its_user(
    username: Seq<char>,
    password: Seq<u8>,
    admin_username: Seq<char>,
    admin_password_hash: Seq<char>,
    now: i64,
)
    ensures
        login_verdict(username, password, admin_username, admin_password_hash, now) matches Ok(c) ==> c.0
            == username && c.1 == (now + TOKEN_LIFETIME_SECS) as usize && c.2 == "admin"@,
{
}

} // verus!
