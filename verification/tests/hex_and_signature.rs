use easytier_web::hex::{from_hex, hex_input_ok};
use easytier_web::peers::{check_report_signature, PeerStore, ReportRejection, ReportedPeer};
use hmac::{Hmac, Mac};
use sha2::Sha256;

type HmacSha256 = Hmac<Sha256>;

fn sign_hex(secret: &str, body: &str) -> String {
    let mut mac = HmacSha256::new_from_slice(secret.as_bytes()).unwrap();
    mac.update(body.as_bytes());
    let sig_bytes = mac.finalize().into_bytes();
    sig_bytes.iter().map(|b| format!("{:02x}", b)).collect()
}

#[test]
fn test_from_hex_valid() {
    let bytes = from_hex("48656c6c6f");
    assert_eq!(bytes, Some(vec![0x48, 0x65, 0x6c, 0x6c, 0x6f]));
}

#[test]
fn test_from_hex_empty() {
    assert_eq!(from_hex(""), Some(vec![]));
}

#[test]
fn test_from_hex_invalid() {
    assert_eq!(from_hex("xyz"), None);
    assert_eq!(from_hex("zz"), None);
}

#[test]
fn test_hmac_roundtrip() {
    let secret = "test-secret";
    let body = r#"{"reporter":"10.0.0.1","peers":[]}"#;

    let mut mac = HmacSha256::new_from_slice(secret.as_bytes()).unwrap();
    mac.update(body.as_bytes());
    let sig_bytes = mac.finalize().into_bytes();
    let sig_hex: String = sig_bytes.iter().map(|b| format!("{:02x}", b)).collect();

    let mut mac2 = HmacSha256::new_from_slice(secret.as_bytes()).unwrap();
    mac2.update(body.as_bytes());
    let decoded = from_hex(&sig_hex).unwrap();
    assert!(mac2.verify_slice(&decoded).is_ok());

    let mut mac3 = HmacSha256::new_from_slice(secret.as_bytes()).unwrap();
    mac3.update(b"wrong body");
    assert!(mac3.verify_slice(&decoded).is_err());

    // The same round trip through the report check.
    let configured = Some(secret.to_string());
    assert_eq!(check_report_signature(&configured, Some(&sig_hex), body), Ok(()));
    assert_eq!(
        check_report_signature(&configured, Some(&sig_hex), "wrong body"),
        Err(ReportRejection::InvalidSignature)
    );
}

#[test]
fn from_hex_upper_case_and_sign() {
    assert_eq!(from_hex("FF00aB"), Some(vec![0xff, 0x00, 0xab]));
    // `u8::from_str_radix` takes a leading plus sign
    assert_eq!(from_hex("+f"), Some(vec![0x0f]));
    assert_eq!(from_hex("++"), None);
    assert_eq!(from_hex("-1"), None);
    assert_eq!(from_hex("0g"), None);
}

#[test]
fn from_hex_roundtrip_of_encoding() {
    let bytes: Vec<u8> = (0u8..=255).collect();
    let hex: String = bytes.iter().map(|b| format!("{:02x}", b)).collect();
    assert_eq!(from_hex(&hex), Some(bytes));
}

#[test]
fn report_refused_without_secret() {
    let sig = sign_hex("s", "body");
    assert_eq!(check_report_signature(&None, Some(&sig), "body"), Err(ReportRejection::NotConfigured));
    assert_eq!(
        check_report_signature(&Some(String::new()), Some(&sig), "body"),
        Err(ReportRejection::NotConfigured)
    );
}

#[test]
fn report_refused_without_or_with_bad_signature() {
    let secret = Some("s".to_string());
    assert_eq!(check_report_signature(&secret, None, "body"), Err(ReportRejection::MissingSignature));
    assert_eq!(check_report_signature(&secret, Some("abc"), "body"), Err(ReportRejection::MissingSignature));
    assert_eq!(check_report_signature(&secret, Some("zz"), "body"), Err(ReportRejection::MissingSignature));
    // valid hex of the wrong length
    assert_eq!(check_report_signature(&secret, Some("abcd"), "body"), Err(ReportRejection::InvalidSignature));
    // signed with another secret
    let other = sign_hex("other", "body");
    assert_eq!(check_report_signature(&secret, Some(&other), "body"), Err(ReportRejection::InvalidSignature));
}

#[test]
fn report_accepted_with_upper_case_signature() {
    let sig = sign_hex("k", "payload").to_uppercase();
    assert_eq!(check_report_signature(&Some("k".to_string()), Some(&sig), "payload"), Ok(()));
}

fn peer(id: u32, ip: Option<&str>, rx: Option<u64>, tx: Option<u64>) -> ReportedPeer {
    ReportedPeer { peer_id: id, ip: ip.map(|s| s.to_string()), hostname: None, rx_bytes: rx, tx_bytes: tx }
}

#[test]
fn peer_store_reads_back_what_was_written() {
    let mut store = PeerStore::default();
    assert_eq!(store.count(), 0);
    assert!(store.snapshot().is_empty());
    let list = vec![peer(1, Some("10.0.0.5"), Some(1), None), peer(2, None, None, Some(2))];
    store.replace(list.clone());
    assert_eq!(store.snapshot(), list);
    assert_eq!(store.count(), 2);
    store.replace(vec![]);
    assert_eq!(store.count(), 0);
}

#[test]
fn reported_peer_duplicate_is_equal() {
    let p = ReportedPeer {
        peer_id: 7,
        ip: Some("10.0.0.7".to_string()),
        hostname: Some("pc".to_string()),
        rx_bytes: Some(123),
        tx_bytes: Some(456),
    };
    assert_eq!(p.duplicate(), p);
}

#[test]
fn hex_input_boundaries() {
    assert!(hex_input_ok("48656c6c6f"));
    assert!(hex_input_ok("xyz"));
    assert!(hex_input_ok(""));
    // 'a' then a three-byte character: the first slice would end inside it
    assert!(!hex_input_ok("a\u{20ac}"));
    // two-byte characters: the first slice is a whole character, not hex
    assert!(hex_input_ok("\u{e9}\u{e9}"));
    assert_eq!(from_hex("\u{e9}\u{e9}"), None);
}

#[test]
fn hex_roundtrip_upper_and_lower_case() {
    let bytes: Vec<u8> = (0u8..=255).collect();
    let lower: String = bytes.iter().map(|x| format!("{:02x}", x)).collect();
    let upper: String = bytes.iter().map(|x| format!("{:02X}", x)).collect();
    assert_eq!(from_hex(&lower), Some(bytes.clone()));
    assert_eq!(from_hex(&upper), Some(bytes));
    assert_eq!(from_hex("AbCd"), Some(vec![0xab, 0xcd]));
}
