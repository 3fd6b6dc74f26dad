use vstd::prelude::*;
use vstd::string::StringExecFns;
use vstd::string::StringSliceAdditionalSpecFns;
use vstd::utf8::{decode_utf8, encode_utf8, is_char_boundary};

use crate::text::{has_prefix, str_starts_with};

verus! {

/// Which network configurations of a user to list.
#[derive(Debug, Clone, Copy, PartialEq, Eq, Structural)]
pub enum ListNetworkProps {
    All,
    EnabledOnly,
    DisabledOnly,
}

impl ListNetworkProps {
    /// The value the `disabled` column must have, or `None` for no filter.
    pub fn disabled_filter(&self) -> (r: Option<bool>)
        ensures
            r == match self {
                ListNetworkProps::All => None,
                ListNetworkProps::EnabledOnly => Some(false),
                ListNetworkProps::DisabledOnly => Some(true),
            },
    {
        match self {
            ListNetworkProps::All => None,
            ListNetworkProps::EnabledOnly => Some(false),
            ListNetworkProps::DisabledOnly => Some(true),
        }
    }
}

/// Prefix of the user names created for guest tokens.
pub const GUEST_USER_PREFIX: &'static str = "__guest_";

/// Prefix of the user names created for network secrets.
pub const SECRET_USER_PREFIX: &'static str = "__secret_";

/// Bytes of the token kept in a derived user name.
pub const NAME_TOKEN_BYTES: usize = 8;

/// A guest token found active and unexpired.
#[derive(Debug, Clone, Copy, PartialEq, Eq, Structural)]
pub struct GuestUse {
    pub use_count: i32,
    pub max_use_count: i32,
}

/// What the last lookup of a token resolution found.
#[derive(Debug, Clone, Copy, PartialEq, Eq, Structural)]
pub enum TokenEvent {
    /// Resolution begins.
    Start,
    /// The user with the token as name, if any.
    UserFound(Option<i32>),
    /// The active, unexpired guest token equal to the token, if any.
    GuestFound(Option<GuestUse>),
    /// The guest token's new use count is stored.
    GuestUseRecorded,
    /// The active network secret equal to the token, if any, with its
    /// expiry (a timestamp in the unit of `now`) when it has one.
    SecretFound(Option<Option<i128>>),
    /// The derived user exists (found or created) with this id.
    UserReady(i32),
}

/// What to do next to resolve a token to a user id.
#[derive(Debug, PartialEq, Eq)]
pub enum TokenAction {
    /// Look up the user whose name is the token.
    FindUser,
    /// Look up an active guest token equal to the token expiring after now.
    FindGuest,
    /// Store this use count on the guest token found.
    RecordGuestUse(i32),
    /// Look up an active network secret equal to the token.
    FindSecret,
    /// Find the user with this name, or create it (its password the hash of
    /// the token), and report its id.
    EnsureUser(String),
    /// Resolution is over: the user id, or none.
    Done(Option<i32>),
}

/// The name kept of a token in a derived user name: its first
/// `NAME_TOKEN_BYTES` bytes (all of a shorter token).
pub open spec fn token_name_part(token: Seq<char>) -> Seq<char> {
    let b = encode_utf8(token);
    let n = if b.len() < NAME_TOKEN_BYTES {
        b.len() as int
    } else {
        NAME_TOKEN_BYTES as int
    };
    decode_utf8(b.subrange(0, n))
}

/// Slicing the token for a derived name ends on a character boundary (the
/// slice would panic otherwise).
pub open spec fn token_name_cut_ok(token: Seq<char>) -> bool {
    let b = encode_utf8(token);
    b.len() < NAME_TOKEN_BYTES || is_char_boundary(b, NAME_TOKEN_BYTES as int)
}

/// The next step of resolving `token` at time `now`: a token that can name
/// a user is first looked up as a user name (tokens starting `__guest_`
/// cannot); then as a guest token, which is refused once its uses reach
/// the maximum and otherwise counts one more use and maps to the user
/// `__guest_<token prefix>`; then as a network secret, refused once its
/// expiry is past and otherwise mapped to `__secret_<token prefix>`.
pub open spec fn token_step(token: Seq<char>, now: i128, event: TokenEvent) -> TokenActionView {
    match event {
        TokenEvent::Start => if has_prefix(token, GUEST_USER_PREFIX@) {
            TokenActionView::FindGuest
        } else {
            TokenActionView::FindUser
        },
        TokenEvent::UserFound(found) => match found {
            Some(id) => TokenActionView::Done(Some(id)),
            None => TokenActionView::FindGuest,
        },
        TokenEvent::GuestFound(found) => match found {
            None => TokenActionView::FindSecret,
            Some(g) => if g.use_count >= g.max_use_count {
                TokenActionView::Done(None)
            } else {
                TokenActionView::RecordGuestUse((g.use_count + 1) as i32)
            },
        },
        TokenEvent::GuestUseRecorded => TokenActionView::EnsureUser(
            GUEST_USER_PREFIX@ + token_name_part(token),
        ),
        TokenEvent::SecretFound(found) => match found {
            None => TokenActionView::Done(None),
            Some(expiry) => if expiry matches Some(e) && e < now {
                TokenActionView::Done(None)
            } else {
                TokenActionView::EnsureUser(SECRET_USER_PREFIX@ + token_name_part(token))
            },
        },
        TokenEvent::UserReady(id) => TokenActionView::Done(Some(id)),
    }
}

/// `TokenAction` with the user name as characters.
pub enum TokenActionView {
    FindUser,
    FindGuest,
    RecordGuestUse(i32),
    FindSecret,
    EnsureUser(Seq<char>),
    Done(Option<i32>),
}

pub open spec fn action_view(a: TokenAction) -> TokenActionView {
    match a {
        TokenAction::FindUser => TokenActionView::FindUser,
        TokenAction::FindGuest => TokenActionView::FindGuest,
        TokenAction::RecordGuestUse(n) => TokenActionView::RecordGuestUse(n),
        TokenAction::FindSecret => TokenActionView::FindSecret,
        TokenAction::EnsureUser(s) => TokenActionView::EnsureUser(s@),
        TokenAction::Done(r) => TokenActionView::Done(r),
    }
}

/// The step derives a user name from the token.
pub open spec fn step_derives_name(now: i128, event: TokenEvent) -> bool {
    match event {
        TokenEvent::GuestUseRecorded => true,
        TokenEvent::SecretFound(found) => match found {
            Some(expiry) => !(expiry matches Some(e) && e < now),
            None => false,
        },
        _ => false,
    }
}

fn derived_user_name(prefix: &str, token: &str) -> (r: String)
    requires
        token_name_cut_ok(token@),
    ensures
        r@ == prefix@ + token_name_part(token@),
{
    let len = token.as_bytes().len();
    let n = if len < NAME_TOKEN_BYTES {
        len
    } else {
        NAME_TOKEN_BYTES
    };
    proof {
        broadcast use vstd::utf8::is_char_boundary_start_end_of_seq, vstd::utf8::encode_utf8_valid_utf8;

        assert(valid_utf8_of(token@));
        if (n as int) < (NAME_TOKEN_BYTES as int) {
            assert(n == token.spec_bytes().len());
            assert(is_char_boundary(token.spec_bytes(), token.spec_bytes().len() as int));
        }
    }
    let (head, _rest) = token.split_at(n);
    proof {
        vstd::utf8::encode_utf8_decode_utf8(head@);
    }
    prefix.to_owned().concat(head)
}

spec fn valid_utf8_of(s: Seq<char>) -> bool {
    vstd::utf8::valid_utf8(encode_utf8(s))
}

/// Whether a user name can be derived from the token (its first
/// `NAME_TOKEN_BYTES` bytes end on a character boundary); where it cannot,
/// resolving the token panics.
pub fn token_cut_ok(token: &str) -> (r: bool)
    ensures
        r == token_name_cut_ok(token@),
{
    let len = token.as_bytes().len();
    if len < NAME_TOKEN_BYTES {
        true
    } else {
        token.is_char_boundary(NAME_TOKEN_BYTES)
    }
}

/// The next step of resolving a token to a user id (see `token_step`).
pub fn next_token_action(token: &str, now: i128, event: TokenEvent) -> (r: TokenAction)
    requires
        step_derives_name(now, event) ==> token_name_cut_ok(token@),
    ensures
        action_view(r) == token_step(token@, now, event),
{
    match event {
        TokenEvent::Start => if str_starts_with(token, GUEST_USER_PREFIX) {
            TokenAction::FindGuest
        } else {
            TokenAction::FindUser
        },
        TokenEvent::UserFound(found) => match found {
            Some(id) => TokenAction::Done(Some(id)),
            None => TokenAction::FindGuest,
        },
        TokenEvent::GuestFound(found) => match found {
            None => TokenAction::FindSecret,
            Some(g) => if g.use_count >= g.max_use_count {
                TokenAction::Done(None)
            } else {
                TokenAction::RecordGuestUse(g.use_count + 1)
            },
        },
        TokenEvent::GuestUseRecorded => TokenAction::EnsureUser(derived_user_name(GUEST_USER_PREFIX, token)),
        TokenEvent::SecretFound(found) => match found {
            None => TokenAction::Done(None),
            Some(expiry) => {
                let expired = match expiry {
                    Some(e) => e < now,
                    None => false,
                };
                if expired {
                    TokenAction::Done(None)
                } else {
                    TokenAction::EnsureUser(derived_user_name(SECRET_USER_PREFIX, token))
                }
            },
        },
        TokenEvent::UserReady(id) => TokenAction::Done(Some(id)),
    }
}

/// A guest token is refused once its uses reach the maximum; before that,
/// each resolution records exactly one more use.
pub proof fn lemma_guest_uses_bounded(token: Seq<char>, now: i128, g: GuestUse)
    ensures
        g.use_count >= g.max_use_count ==> token_step(token, now, TokenEvent::GuestFound(Some(g)))
            == TokenActionView::Done(None),
        g.use_count < g.max_use_count ==> token_step(token, now, TokenEvent::GuestFound(Some(g)))
            == TokenActionView::RecordGuestUse((g.use_count + 1) as i32) && g.use_count + 1
            <= g.max_use_count,
{
}

/// An expired network secret never resolves to a user.
pub proof fn lemma_expired_secret_refused(token: Seq<char>, now: i128, expiry: i128)
    requires
        expiry < now,
    ensures
        token_step(token, now, TokenEvent::SecretFound(Some(Some(expiry)))) == TokenActionView::Done(None),
{
}

/// A token that starts with the guest prefix is never taken for a user
/// name: resolution goes straight to the guest tokens.
pub proof fn lemma_guest_prefixed_token_skips_users(token: Seq<char>, now: i128)
    requires
        has_prefix(token, GUEST_USER_PREFIX@),
    ensures
        token_step(token, now, TokenEvent::Start) == TokenActionView::FindGuest,
{
}

} // verus!
