use easytier_web::accounts::{next_token_action, token_cut_ok, GuestUse, ListNetworkProps, TokenAction, TokenEvent};
use easytier_web::agents::{heartbeat_sync_time, new_agent, CreateAgentRequest};
use easytier_web::assets::{asset_path, asset_response};
use easytier_web::auth::{
    authenticate, bearer_token, sign_token, token_user_password_hash, verify_token, check_claims, dashboard_stats, AdminSettings, AuthError, Claims, LoginRequest,
};
use easytier_web::devices::{device_info, plan_block, BlockPlan, BlockedDevice, HeartbeatSummary, SessionInfo};
use easytier_web::guests::{
    expiry_timestamp, issue_guest_token, new_guest_token, new_network_secret, validity_hours, CreateGuestRequest, CreateSecretRequest,
};
use easytier_web::sync::{plan_sync, SyncAction};
use easytier_web::whitelist::{
    export_whitelist, list_whitelist, publish_hostname, unbind_hostname, PublicWhitelistEntry, WhitelistRow,
};

fn claims(role: &str, exp: usize) -> Claims {
    Claims { sub: "admin".to_string(), exp, role: role.to_string() }
}

#[test]
fn bearer_header_parsing() {
    assert_eq!(bearer_token(None), Err(AuthError::MissingHeader));
    assert_eq!(bearer_token(Some("Basic abc")), Err(AuthError::InvalidFormat));
    assert_eq!(bearer_token(Some("bearer abc")), Err(AuthError::InvalidFormat));
    assert_eq!(bearer_token(Some("Bearer")), Err(AuthError::InvalidFormat));
    assert_eq!(bearer_token(Some("Bearer abc.def")), Ok("abc.def"));
    assert_eq!(bearer_token(Some("Bearer ")), Ok(""));
}

#[test]
fn claims_checks_role_then_expiry() {
    assert_eq!(check_claims(claims("admin", 100), 100), Ok(claims("admin", 100)));
    assert_eq!(check_claims(claims("admin", 99), 100), Err(AuthError::TokenExpired));
    assert_eq!(check_claims(claims("guest", 1000), 100), Err(AuthError::NotAuthorized));
    assert_eq!(check_claims(claims("guest", 1), 100), Err(AuthError::NotAuthorized));
}

#[test]
fn login_checks_user_and_password() {
    let hash = password_auth::generate_hash("s3cret");
    let admin = "admin".to_string();
    let ok = LoginRequest { username: "admin".to_string(), password: "s3cret".to_string() };
    let c = authenticate(&ok, &admin, &hash, 1_000).unwrap();
    assert_eq!(c, Claims { sub: "admin".to_string(), exp: 87_400, role: "admin".to_string() });
    let bad_pw = LoginRequest { username: "admin".to_string(), password: "nope".to_string() };
    assert_eq!(authenticate(&bad_pw, &admin, &hash, 1_000), Err(AuthError::InvalidCredentials));
    let bad_user = LoginRequest { username: "root".to_string(), password: "s3cret".to_string() };
    assert_eq!(authenticate(&bad_user, &admin, &hash, 1_000), Err(AuthError::InvalidCredentials));
}

#[test]
fn admin_settings_defaults() {
    let s = AdminSettings::with_defaults(None, None, None);
    assert_eq!(s.username, "admin");
    assert_eq!(s.password, "admin123");
    assert_eq!(s.secret, "change-me-to-a-random-string");
    assert!(s.uses_default_credentials());
    let t = AdminSettings::with_defaults(Some("ops".into()), Some("pw".into()), Some("key".into()));
    assert_eq!(t.username, "ops");
    assert!(!t.uses_default_credentials());
    let u = AdminSettings::with_defaults(None, Some("pw".into()), None);
    assert!(u.uses_default_credentials());
}

#[test]
fn dashboard_counts_peers_as_devices() {
    let d = dashboard_stats(3, 2, 4);
    assert_eq!(d.total_devices, 7);
    assert_eq!(d.active_sessions, 3);
    assert_eq!(d.blocked_count, 2);
}

fn row(id: i32, ip: &str, hostname: Option<&str>) -> WhitelistRow {
    WhitelistRow {
        id,
        ip: ip.to_string(),
        comment: Some("c".to_string()),
        hostname: hostname.map(|s| s.to_string()),
        created_by: "admin".to_string(),
        created_at: "2025-06-01T00:00:00+00:00".to_string(),
    }
}

#[test]
fn whitelist_export_publishes_bindings() {
    let rows = vec![row(1, "10.0.0.1", Some("srv")), row(2, "10.0.0.2", Some("")), row(3, "10.0.0.3", None)];
    let out = export_whitelist(rows);
    assert_eq!(
        out,
        vec![
            PublicWhitelistEntry { ip: "10.0.0.1".to_string(), hostname: Some("srv".to_string()) },
            PublicWhitelistEntry { ip: "10.0.0.2".to_string(), hostname: None },
            PublicWhitelistEntry { ip: "10.0.0.3".to_string(), hostname: None },
        ]
    );
}

#[test]
fn whitelist_list_matches_export() {
    let rows = vec![row(1, "10.0.0.1", Some("srv")), row(2, "10.0.0.2", Some(""))];
    let listed = list_whitelist(vec![row(1, "10.0.0.1", Some("srv")), row(2, "10.0.0.2", Some(""))]);
    let exported = export_whitelist(rows);
    assert_eq!(listed.entries.len(), 2);
    for (l, e) in listed.entries.iter().zip(exported.iter()) {
        assert_eq!(l.ip, e.ip);
        assert_eq!(l.hostname, e.hostname);
    }
    assert_eq!(listed.entries[0].id, 1);
    assert_eq!(listed.entries[0].comment, Some("c".to_string()));
}

#[test]
fn unbind_then_export_gives_null_hostname() {
    let r = unbind_hostname(row(5, "10.0.0.5", Some("pc")));
    assert_eq!(r.hostname, None);
    assert_eq!(r.id, 5);
    assert_eq!(
        export_whitelist(vec![r]),
        vec![PublicWhitelistEntry { ip: "10.0.0.5".to_string(), hostname: None }]
    );
    assert_eq!(publish_hostname(Some(String::new())), None);
    assert_eq!(publish_hostname(Some("x".to_string())), Some("x".to_string()));
}

fn session(mid: &str, url: &str, user: i32) -> SessionInfo {
    SessionInfo { machine_id: mid.to_string(), client_url: url.to_string(), token: "tok".to_string(), user_id: user }
}

fn block(mid: &str, reason: &str) -> BlockedDevice {
    BlockedDevice { machine_id: mid.to_string(), reason: reason.to_string() }
}

#[test]
fn device_list_entry() {
    let hb = HeartbeatSummary {
        hostname: "pc".to_string(),
        easytier_version: "2.4.5".to_string(),
        report_time: "now".to_string(),
    };
    let blocked = vec![block("m1", "first"), block("m2", "other"), block("m1", "second")];
    let d = device_info(session("m1", "tcp://x", 1), Some(hb), Some("loc"), &blocked);
    assert!(d.blocked);
    assert_eq!(d.blocked_reason, Some("second".to_string()));
    assert_eq!(d.hostname, Some("pc".to_string()));
    assert_eq!(d.version, Some("2.4.5".to_string()));
    assert_eq!(d.last_seen, Some("now".to_string()));
    assert_eq!(d.location, Some("loc"));
    assert_eq!(d.ip, None);
    assert_eq!(d.os, None);
    let e = device_info::<&str>(session("m3", "tcp://y", 2), None, None, &blocked);
    assert!(!e.blocked);
    assert_eq!(e.blocked_reason, None);
    assert_eq!(e.hostname, None);
    assert_eq!(e.user_token, "tok");
}

#[test]
fn block_planning() {
    let sessions = vec![session("m1", "u1", 1), session("m2", "u2", 2), session("m2", "u3", 3)];
    assert_eq!(plan_block(&sessions, &"m9".to_string(), false), BlockPlan::DeviceNotFound);
    assert_eq!(plan_block(&sessions, &"m9".to_string(), true), BlockPlan::DeviceNotFound);
    assert_eq!(plan_block(&sessions, &"m2".to_string(), true), BlockPlan::AlreadyBlocked);
    assert_eq!(
        plan_block(&sessions, &"m2".to_string(), false),
        BlockPlan::Insert { device_id: "u2".to_string(), user_id: 2 }
    );
}

#[test]
fn network_config_filters() {
    assert_eq!(ListNetworkProps::All.disabled_filter(), None);
    assert_eq!(ListNetworkProps::EnabledOnly.disabled_filter(), Some(false));
    assert_eq!(ListNetworkProps::DisabledOnly.disabled_filter(), Some(true));
}

#[test]
fn token_resolution_steps() {
    let t = "0123456789abcdef";
    assert_eq!(next_token_action(t, 0, TokenEvent::Start), TokenAction::FindUser);
    assert_eq!(next_token_action("__guest_x", 0, TokenEvent::Start), TokenAction::FindGuest);
    assert_eq!(next_token_action(t, 0, TokenEvent::UserFound(Some(4))), TokenAction::Done(Some(4)));
    assert_eq!(next_token_action(t, 0, TokenEvent::UserFound(None)), TokenAction::FindGuest);
    assert_eq!(next_token_action(t, 0, TokenEvent::GuestFound(None)), TokenAction::FindSecret);
    let used_up = GuestUse { use_count: 10, max_use_count: 10 };
    assert_eq!(next_token_action(t, 0, TokenEvent::GuestFound(Some(used_up))), TokenAction::Done(None));
    let fresh = GuestUse { use_count: 3, max_use_count: 10 };
    assert_eq!(next_token_action(t, 0, TokenEvent::GuestFound(Some(fresh))), TokenAction::RecordGuestUse(4));
    assert_eq!(
        next_token_action(t, 0, TokenEvent::GuestUseRecorded),
        TokenAction::EnsureUser("__guest_01234567".to_string())
    );
    assert_eq!(next_token_action(t, 0, TokenEvent::SecretFound(None)), TokenAction::Done(None));
    assert_eq!(next_token_action(t, 50, TokenEvent::SecretFound(Some(Some(49)))), TokenAction::Done(None));
    assert_eq!(
        next_token_action(t, 50, TokenEvent::SecretFound(Some(Some(50)))),
        TokenAction::EnsureUser("__secret_01234567".to_string())
    );
    assert_eq!(
        next_token_action("abc", 50, TokenEvent::SecretFound(Some(None))),
        TokenAction::EnsureUser("__secret_abc".to_string())
    );
    assert_eq!(next_token_action(t, 0, TokenEvent::UserReady(9)), TokenAction::Done(Some(9)));
}

#[test]
fn validity_of_new_tokens() {
    assert_eq!(validity_hours(-1), 876000);
    assert_eq!(validity_hours(0), 0);
    assert_eq!(validity_hours(24), 24);
    let g = new_guest_token(
        CreateGuestRequest { password: "p".into(), max_use_count: 5, expiry_hours: -3 },
        "tok".into(),
        "admin".into(),
    );
    assert_eq!(g.use_count, 0);
    assert!(g.is_active);
    assert_eq!(g.max_use_count, 5);
    assert_eq!(g.validity_hours, 876000);
    let s = new_network_secret(
        CreateSecretRequest { name: "n".into(), secret: "s".into(), max_use_hours: 48 },
        "admin".into(),
    );
    assert!(s.is_active);
    assert_eq!(s.validity_hours, 48);
    assert_eq!(s.created_by, "admin");
}

#[test]
fn agent_registration_and_heartbeat() {
    let a = new_agent(CreateAgentRequest { name: "n".into(), virtual_ip: "10.0.10.2".into(), description: None });
    assert_eq!(a.last_sync_status, "unknown");
    assert_eq!(a.last_sync_at, None);
    assert_eq!(a.virtual_ip, "10.0.10.2");
    assert_eq!(heartbeat_sync_time(Some(5), 9), 5);
    assert_eq!(heartbeat_sync_time(None, 9), 9);
}

#[test]
fn sync_keeps_whitelist_unless_array() {
    assert_eq!(plan_sync(false, b"[]"), SyncAction::KeepOnErrorStatus);
    assert_eq!(plan_sync(true, b"not json"), SyncAction::KeepOnInvalidJson);
    assert_eq!(plan_sync(true, b"{\"a\":1}"), SyncAction::KeepOnNotArray);
    match plan_sync(true, br#"[{"ip":"10.0.0.1","hostname":null},{"ip":"10.0.0.2","hostname":"x"}]"#) {
        SyncAction::Replace { content, entries } => {
            assert_eq!(entries, 2);
            let v: serde_json::Value = serde_json::from_str(&content).unwrap();
            assert_eq!(v[0]["hostname"], serde_json::Value::Null);
            assert_eq!(v[1]["hostname"], "x");
        }
        other => panic!("unexpected {:?}", other),
    }
}

#[test]
fn assets_served_with_mime_or_404() {
    assert_eq!(asset_path(""), "index.html");
    assert_eq!(asset_path("app.js"), "app.js");
    let ok = asset_response("index.html", Some(vec![1, 2]));
    assert_eq!(ok.status, 200);
    assert_eq!(ok.content_type.as_deref(), Some("text/html"));
    assert_eq!(ok.body, vec![1, 2]);
    let unknown = asset_response("blob.zzzz", Some(vec![]));
    assert_eq!(unknown.content_type.as_deref(), Some("application/octet-stream"));
    let missing = asset_response("nope.css", None);
    assert_eq!(missing.status, 404);
    assert_eq!(missing.body, b"Not found".to_vec());
}

#[test]
fn token_cut_check() {
    assert!(token_cut_ok("short"));
    assert!(token_cut_ok("0123456789"));
    assert!(token_cut_ok("012345\u{e9}"));
    assert!(token_cut_ok("012345\u{e9}x"));
    assert!(!token_cut_ok("0123456\u{e9}"));
    assert_eq!(
        next_token_action("\u{e9}\u{e9}\u{e9}\u{e9}x", 0, TokenEvent::GuestUseRecorded),
        TokenAction::EnsureUser("__guest_\u{e9}\u{e9}\u{e9}\u{e9}".to_string())
    );
}

#[test]
fn configured_admin_password_logs_in() {
    let s = AdminSettings::with_defaults(None, Some("pässwort".into()), None);
    let hash = s.password_hash();
    assert_ne!(hash, s.password);
    let ok = LoginRequest { username: "admin".to_string(), password: "pässwort".to_string() };
    let c = authenticate(&ok, &s.username, &hash, 1_000).unwrap();
    assert_eq!(c.sub, "admin");
    assert_eq!(c.exp, 87_400);
    assert_eq!(c.role, "admin");
    let bad = LoginRequest { username: "admin".to_string(), password: "passwort".to_string() };
    assert_eq!(authenticate(&bad, &s.username, &hash, 1_000), Err(AuthError::InvalidCredentials));
}

#[test]
fn issued_guest_token_is_a_v4_uuid() {
    let req = CreateGuestRequest { password: "pw".to_string(), max_use_count: 3, expiry_hours: -1 };
    let g = issue_guest_token(req, "admin".to_string());
    let t: Vec<char> = g.token.chars().collect();
    assert_eq!(t.len(), 36);
    for (i, c) in t.iter().enumerate() {
        if i == 8 || i == 13 || i == 18 || i == 23 {
            assert_eq!(*c, '-');
        } else {
            assert!(c.is_ascii_digit() || ('a'..='f').contains(c));
        }
    }
    assert_eq!(t[14], '4');
    assert!(['8', '9', 'a', 'b'].contains(&t[19]));
    assert_eq!(g.use_count, 0);
    assert!(g.is_active);
    assert_eq!(g.validity_hours, 876000);
    let again = issue_guest_token(
        CreateGuestRequest { password: "pw".to_string(), max_use_count: 3, expiry_hours: 2 },
        "admin".to_string(),
    );
    assert_ne!(again.token, g.token);
}

#[test]
fn token_user_hash_verifies_the_token() {
    let hash = token_user_password_hash("guest-token-123");
    assert_ne!(hash, "guest-token-123");
    let ok = LoginRequest { username: "u".to_string(), password: "guest-token-123".to_string() };
    assert!(authenticate(&ok, &"u".to_string(), &hash, 0).is_ok());
    let bad = LoginRequest { username: "u".to_string(), password: "guest-token-124".to_string() };
    assert_eq!(authenticate(&bad, &"u".to_string(), &hash, 0), Err(AuthError::InvalidCredentials));
}

#[test]
fn signed_login_token_verifies_for_a_day() {
    let c = Claims { sub: "admin".to_string(), exp: 1_086_400, role: "admin".to_string() };
    let token = sign_token("change-me-to-a-random-string", &c).unwrap();
    assert_eq!(token.split('.').count(), 3);
    assert_eq!(verify_token("change-me-to-a-random-string", &token, 1_000_000), Ok(c.clone()));
    assert_eq!(verify_token("change-me-to-a-random-string", &token, 1_086_400), Ok(c.clone()));
    assert_eq!(verify_token("change-me-to-a-random-string", &token, 1_086_401), Err(AuthError::TokenExpired));
    assert_eq!(verify_token("another-secret", &token, 1_000_000), Err(AuthError::AuthenticationFailed));
    let cut = token.rfind('.').unwrap() + 1;
    let first = if token.as_bytes()[cut] == b'A' { "B" } else { "A" };
    let forged = format!("{}{}{}", &token[..cut], first, &token[cut + 1..]);
    assert_eq!(verify_token("change-me-to-a-random-string", &forged, 1_000_000), Err(AuthError::AuthenticationFailed));
    assert_eq!(verify_token("change-me-to-a-random-string", "not-a-jwt", 0), Err(AuthError::AuthenticationFailed));
    let user = Claims { sub: "bob".to_string(), exp: 5, role: "user".to_string() };
    let t2 = sign_token("k", &user).unwrap();
    assert_eq!(verify_token("k", &t2, 0), Err(AuthError::NotAuthorized));
}

#[test]
fn expiry_is_validity_hours_later() {
    assert_eq!(expiry_timestamp(1_000, 2), Some(8_200));
    assert_eq!(expiry_timestamp(0, validity_hours(-1)), Some(876_000 * 3600));
    assert_eq!(expiry_timestamp(i64::MAX - 10, 1), None);
    assert_eq!(expiry_timestamp(-3600, 1), Some(0));
}
