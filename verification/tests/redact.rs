//! Redaction of identifiers in logs.

use openab_core::redact::{
    hash_tag, redact_platform_identity, redact_platform_identity_if_safe,
    redact_platform_identity_with_mode, redact_session_ids, redact_session_ids_if_safe,
    redact_session_ids_with_mode, safe_observability_enabled, tag_of_digest,
};
use sha2::{Digest, Sha256};

#[test]
fn both_encodings_hash_alike_and_everything_else_passes_through() {
    let u = "00000000-0000-0000-0000-000000000000";
    let tag = redact_session_ids(&format!("acp_{u}"), None);
    assert!(tag.starts_with('#') && tag.len() == 9, "expected #<8hex>, got {tag}");
    assert_eq!(
        redact_session_ids(&format!("sess_{u}"), None),
        tag,
        "both encodings carry the SAME uuid, so they must produce the same tag or one session \
         reads as two"
    );
    assert_eq!(
        redact_session_ids(&format!("acp:acp_{u}"), None),
        format!("acp:{tag}"),
        "a <platform>:<id> pool key must redact the id half and keep the platform greppable"
    );
    assert_eq!(redact_session_ids("1234567890", None), "1234567890", "public ids stay greppable");
    assert_eq!(redact_session_ids("-", None), "-", "the no-session sentinel is not a session");
    assert_eq!(redact_session_ids("", None), "", "empty in, empty out");
    assert_eq!(redact_session_ids("acp_", None), "acp_", "a bare prefix carries no uuid to hide");
    assert_eq!(
        redact_session_ids("discord:1234567890", None),
        "discord:1234567890",
        "a non-ACP composite is untouched, which is why applying this blindly is safe"
    );
}

#[test]
fn private_messaging_ids_and_composite_keys_are_pseudonymized() {
    let telegram = redact_platform_identity_with_mode("telegram", "1234567890", true);
    assert!(telegram.starts_with('#') && telegram.len() == 9);
    assert!(!telegram.contains("1234567890"));
    assert_eq!(
        telegram,
        redact_platform_identity_with_mode("telegram", "1234567890", true)
    );

    let line = redact_session_ids_with_mode("line:U1234567890abcdef", true);
    assert!(line.starts_with("line:#"));
    assert!(!line.contains("U1234567890abcdef"));

    let telegram_composite =
        redact_session_ids_with_mode("telegram:1234567890:9876543210", true);
    assert_eq!(telegram_composite.matches('#').count(), 2);
    assert!(!telegram_composite.contains("1234567890"));
    assert!(!telegram_composite.contains("9876543210"));

    assert_eq!(
        redact_platform_identity_with_mode("discord", "1234567890", true),
        "1234567890",
        "public platform ids keep their existing operator semantics"
    );
}

#[test]
fn private_messaging_redaction_is_explicitly_opt_in() {
    assert_eq!(
        redact_platform_identity_with_mode("telegram", "1234567890", false),
        "1234567890"
    );
    assert_eq!(
        redact_session_ids_with_mode("line:U1234567890abcdef", false),
        "line:U1234567890abcdef"
    );
}

#[test]
fn tags_are_the_first_bytes_of_the_digest() {
    assert_eq!(tag_of_digest(&[0x01, 0xab, 0xff, 0x10, 0x99]), "#01abff10");
    let digest = Sha256::digest("session".as_bytes());
    let expected = format!(
        "#{:02x}{:02x}{:02x}{:02x}",
        digest[0], digest[1], digest[2], digest[3]
    );
    assert_eq!(hash_tag("session"), expected);
    assert_ne!(hash_tag("session"), hash_tag("other session"));
}

#[test]
fn the_setting_decides() {
    assert!(safe_observability_enabled(Some("1")));
    assert!(safe_observability_enabled(Some("true")));
    assert!(!safe_observability_enabled(Some("yes")));
    assert!(!safe_observability_enabled(None));
    assert_eq!(redact_platform_identity("line", "U1", None), "U1");
    assert_eq!(
        redact_platform_identity("line", "U1", Some("1")),
        hash_tag("U1")
    );
    assert_eq!(redact_platform_identity_if_safe("line", "U1", None), "U1");
    let id = "acp_00000000-0000-0000-0000-000000000000";
    assert_eq!(redact_session_ids_if_safe(id, None), id);
    assert_eq!(
        redact_session_ids_if_safe(id, Some("true")),
        redact_session_ids_with_mode(id, true)
    );
}
