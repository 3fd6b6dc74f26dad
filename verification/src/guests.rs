use vstd::prelude::*;

verus! {

#[derive(Debug)]
pub struct CreateGuestRequest {
    pub password: String,
    pub max_use_count: i32,
    pub expiry_hours: i64,
}

#[derive(Debug)]
pub struct CreateGuestResponse {
    pub ok: bool,
    pub token: String,
    pub id: i32,
}

#[derive(Debug)]
pub struct GuestInfo {
    pub id: i32,
    pub token: String,
    pub password: String,
    pub created_by: String,
    pub use_count: i32,
    pub max_use_count: i32,
    pub is_active: bool,
    pub expires_at: String,
    pub created_at: String,
}

#[derive(Debug)]
pub struct GuestListResponse {
    pub guests: Vec<GuestInfo>,
}

#[derive(Debug)]
pub struct RevokeGuestRequest {
    pub id: i32,
}

#[derive(Debug)]
pub struct CreateSecretRequest {
    pub name: String,
    pub secret: String,
    pub max_use_hours: i64,
}

#[derive(Debug)]
pub struct SecretInfo {
    pub id: i32,
    pub name: String,
    pub secret: String,
    pub created_by: String,
    pub is_active: bool,
    pub expires_at: Option<String>,
    pub created_at: String,
}

#[derive(Debug)]
pub struct SecretListResponse {
    pub secrets: Vec<SecretInfo>,
}

#[derive(Debug)]
pub struct DeleteSecretRequest {
    pub id: i32,
}

/// Hours of validity given for a negative request: about a hundred years.
pub const UNLIMITED_VALIDITY_HOURS: i64 = 876000;

/// Hours until a guest token or network secret expires: a negative request
/// means no practical limit.
pub open spec fn validity_hours_spec(requested: i64) -> i64 {
    if requested < 0 {
        UNLIMITED_VALIDITY_HOURS
    } else {
        requested
    }
}

/// Hours until a new guest token or network secret expires.
pub fn validity_hours(requested: i64) -> (h: i64)
    ensures
        h == validity_hours_spec(requested),
{
    if requested < 0 {
        UNLIMITED_VALIDITY_HOURS
    } else {
        requested
    }
}

/// The instant (whole seconds since the epoch) at which something created
/// at `now_secs` expires after `hours` hours, if it is an `i64`.
pub open spec fn expiry_timestamp_spec(now_secs: i64, hours: i64) -> Option<i64> {
    let e = now_secs + hours * 3600;
    if i64::MIN <= e <= i64::MAX {
        Some(e as i64)
    } else {
        None
    }
}

/// The expiry, in whole seconds since the epoch, of a guest token or
/// network secret created at `now_secs` and valid for `hours` hours; `None`
/// when it does not fit an `i64`.
pub fn expiry_timestamp(now_secs: i64, hours: i64) -> (r: Option<i64>)
    ensures
        r == expiry_timestamp_spec(now_secs, hours),
{
    let e: i128 = now_secs as i128 + hours as i128 * 3600;
    if i64::MIN as i128 <= e && e <= i64::MAX as i128 {
        Some(e as i64)
    } else {
        None
    }
}

/// A guest token to store: unused and active.
#[derive(Debug)]
pub struct NewGuestToken {
    pub token: String,
    pub password: String,
    pub created_by: String,
    pub max_use_count: i32,
    pub use_count: i32,
    pub is_active: bool,
    pub validity_hours: i64,
}

/// The guest token that a request creates, under a fresh token value.
pub fn new_guest_token(req: CreateGuestRequest, token: String, created_by: String) -> (g: NewGuestToken)
    ensures
        g.token == token,
        g.password == req.password,
        g.created_by == created_by,
        g.max_use_count == req.max_use_count,
        g.use_count == 0,
        g.is_active,
        g.validity_hours == validity_hours_spec(req.expiry_hours),
{
    NewGuestToken {
        token,
        password: req.password,
        created_by,
        max_use_count: req.max_use_count,
        use_count: 0,
        is_active: true,
        validity_hours: validity_hours(req.expiry_hours),
    }
}

/// A lower-case hexadecimal digit.
pub open spec fn is_lower_hex_char(c: char) -> bool {
    ('0' <= c && c <= '9') || ('a' <= c && c <= 'f')
}

/// A random (version 4) UUID in its hyphenated lower-case text form, such
/// as `67e55044-10b1-426f-9247-bb680e5fe0c8`: 36 characters, hyphens at
/// positions 8, 13, 18 and 23, hex digits elsewhere, the version digit `4`
/// at position 14 and the variant digit (`8`, `9`, `a` or `b`) at 19.
pub open spec fn is_v4_uuid_text(s: Seq<char>) -> bool {
    &&& s.len() == 36
    &&& forall|i: int|
        0 <= i < 36 ==> if i == 8 || i == 13 || i == 18 || i == 23 {
            #[trigger] s[i] == '-'
        } else {
            is_lower_hex_char(s[i])
        }
    &&& s[14] == '4'
    &&& (s[19] == '8' || s[19] == '9' || s[19] == 'a' || s[19] == 'b')
}

/// Calls `uuid::Uuid::new_v4()` and writes it with `to_string`. Claimed of
/// the text: its form as `is_v4_uuid_text` gives it (`new_v4` masks in the
/// version and variant bits; `Display` writes the hyphenated lower-case
/// form). The other 122 bits are random and are not stated.
#[verifier::external_body]
fn new_v4_uuid_text() -> (r: String)
    ensures
        is_v4_uuid_text(r@),
{
    uuid::Uuid::new_v4().to_string()
}

/// The guest token that a request creates, under a fresh random UUID as
/// its token value.
pub fn issue_guest_token(req: CreateGuestRequest, created_by: String) -> (g: NewGuestToken)
    ensures
        is_v4_uuid_text(g.token@),
        g.password == req.password,
        g.created_by == created_by,
        g.max_use_count == req.max_use_count,
        g.use_count == 0,
        g.is_active,
        g.validity_hours == validity_hours_spec(req.expiry_hours),
{
    new_guest_token(req, new_v4_uuid_text(), created_by)
}

/// A network secret to store: active.
#[derive(Debug)]
pub struct NewNetworkSecret {
    pub name: String,
    pub secret: String,
    pub created_by: String,
    pub is_active: bool,
    pub validity_hours: i64,
}

/// The network secret that a request creates.
pub fn new_network_secret(req: CreateSecretRequest, created_by: String) -> (s: NewNetworkSecret)
    ensures
        s.name == req.name,
        s.secret == req.secret,
        s.created_by == created_by,
        s.is_active,
        s.validity_hours == validity_hours_spec(req.max_use_hours),
{
    NewNetworkSecret {
        name: req.name,
        secret: req.secret,
        created_by,
        is_active: true,
        validity_hours: validity_hours(req.max_use_hours),
    }
}

/// Expiry never lies in the past at creation: the validity is never negative.
pub proof fn lemma_validity_not_negative(requested: i64)
    ensures
        validity_hours_spec(requested) >= 0,
        requested >= 0 ==> validity_hours_spec(requested) == requested,
{
}

} // verus!
