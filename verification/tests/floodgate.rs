use aes_gcm::aead::{Aead, KeyInit};
use aes_gcm::{Aes128Gcm, Nonce};
use base64::Engine;
use pico_limbo::floodgate::{
    key_from_material, parse_data, truncate_utf8, FloodgateConfig, FloodgateData, FloodgateError,
};
use sha2::{Digest, Sha256};

const KEY: [u8; 16] = *b"0123456789abcdef";
const IV: [u8; 12] = *b"nonce-12byte";

fn b64(bytes: &[u8]) -> String {
    base64::engine::general_purpose::STANDARD.encode(bytes)
}

fn record(plain: &str) -> String {
    let cipher = Aes128Gcm::new_from_slice(&KEY).unwrap();
    let ciphertext = cipher.encrypt(Nonce::from_slice(&IV), plain.as_bytes()).unwrap();
    format!("^Floodgate^>{}!{}", b64(&IV), b64(&ciphertext))
}

fn java_fields(username: &str, xuid: &str) -> String {
    ["1", username, xuid, "3", "4", "5", "6", "10.0.0.7", "8", "9", "10", "11"].join("\0")
}

fn education_fields(username: &str, xuid: &str, tenant: &str, role: &str) -> String {
    let mut fields = vec!["1", username, xuid, "3", "4", "5", "6", "10.0.0.7", "8", "9", "10", "11"];
    fields.extend_from_slice(&["1", tenant, role]);
    fields.join("\0")
}

fn config(enabled: bool, education: bool) -> FloodgateConfig {
    let mut c = FloodgateConfig::default();
    c.enabled = enabled;
    c.education_enabled = education;
    c.key = Some(KEY);
    c
}

fn data(username: &str, xuid: &str, education: bool, tenant: &str) -> FloodgateData {
    FloodgateData {
        username: username.to_string(),
        xuid: xuid.to_string(),
        ip: "10.0.0.7".to_string(),
        education,
        tenant_id: tenant.to_string(),
        ad_role: -1,
    }
}

#[test]
fn default_config() {
    let c = FloodgateConfig::default();
    assert!(!c.enabled);
    assert!(!c.education_enabled);
    assert!(c.key.is_none());
    assert_eq!(c.username_prefix, ".");
    assert_eq!(c.education_prefix, "+");
    assert!(c.replace_spaces);
    assert!(!c.education_uuid_legacy);
}

#[test]
fn key_material_prefers_file_then_base64_then_raw() {
    assert_eq!(key_from_material("ignored", Some(KEY.to_vec())), Ok(KEY));
    assert_eq!(key_from_material(&b64(&KEY), None), Ok(KEY));
    // Valid Base64 is decoded even when that gives the wrong length.
    assert_eq!(key_from_material("0123456789abcdef", None), Err(FloodgateError::InvalidKeyLength(12)));
    assert_eq!(key_from_material("0123456789abcde!", None), Ok(*b"0123456789abcde!"));
    assert_eq!(key_from_material("short", None), Err(FloodgateError::InvalidKeyLength(5)));
    assert_eq!(key_from_material("x", Some(vec![1, 2, 3])), Err(FloodgateError::InvalidKeyLength(3)));
}

#[test]
fn settings_load_the_key_only_when_enabled() {
    let off = FloodgateConfig::from_settings(false, false, "bad", None, ".".into(), "+".into(), true, false)
        .unwrap();
    assert!(off.key.is_none());
    let on = FloodgateConfig::from_settings(true, false, &b64(&KEY), None, ".".into(), "+".into(), true, false)
        .unwrap();
    assert_eq!(on.key, Some(KEY));
    assert!(matches!(
        FloodgateConfig::from_settings(false, true, "bad", None, ".".into(), "+".into(), true, false),
        Err(FloodgateError::InvalidKeyLength(3))
    ));
}

#[test]
fn hostname_without_nul_is_kept() {
    let (base, player) = config(true, false).parse_hostname("play.example.org").unwrap();
    assert_eq!(base, "play.example.org");
    assert!(player.is_none());
}

#[test]
fn hostname_kept_whole_when_floodgate_is_off() {
    let host = format!("play.example.org\0{}", record(&java_fields("Steve", "1")));
    let (base, player) = config(false, false).parse_hostname(&host).unwrap();
    assert_eq!(base, host);
    assert!(player.is_none());
}

#[test]
fn hostname_with_java_record() {
    let host = format!("play.example.org\0{}", record(&java_fields("Steve Bob", "2535400000000001")));
    let (base, player) = config(true, false).parse_hostname(&host).unwrap();
    assert_eq!(base, "play.example.org");
    let player = player.unwrap();
    assert_eq!(player.username, "Steve Bob");
    assert_eq!(player.xuid, "2535400000000001");
    assert_eq!(player.ip, "10.0.0.7");
    assert!(!player.education);
    assert_eq!(player.tenant_id, "");
    assert_eq!(player.ad_role, -1);
}

#[test]
fn hostname_record_errors() {
    let c = config(true, false);
    let host = |rest: String| format!("a\0{rest}");
    assert!(matches!(c.parse_hostname(&host("nope".into())), Err(FloodgateError::InvalidHeader)));
    assert!(matches!(
        c.parse_hostname(&host("^Floodgate^>abc".into())),
        Err(FloodgateError::InvalidPayload)
    ));
    assert!(matches!(
        c.parse_hostname(&host("^Floodgate^>@@!AAAA".into())),
        Err(FloodgateError::InvalidIvEncoding)
    ));
    assert!(matches!(
        c.parse_hostname(&host(format!("^Floodgate^>{}!@@", b64(&IV)))),
        Err(FloodgateError::InvalidCiphertextEncoding)
    ));
    assert!(matches!(
        c.parse_hostname(&host(format!("^Floodgate^>{}!AAAA", b64(b"short")))),
        Err(FloodgateError::InvalidIvLength)
    ));
    assert!(matches!(
        c.parse_hostname(&host(format!("^Floodgate^>{}!{}", b64(&IV), b64(&[0u8; 32])))),
        Err(FloodgateError::AuthenticationFailed)
    ));
    assert!(matches!(
        c.parse_hostname(&host(record("only\0three\0fields"))),
        Err(FloodgateError::InvalidFieldCount(3))
    ));
    let mut no_key = config(true, false);
    no_key.key = None;
    assert!(matches!(
        no_key.parse_hostname(&host(record(&java_fields("a", "1")))),
        Err(FloodgateError::KeyNotConfigured)
    ));
    assert!(matches!(
        config(true, false).parse_hostname(&host(record(&education_fields("a", "1", "t", "0")))),
        Err(FloodgateError::EducationDisabled)
    ));
    assert!(matches!(
        config(false, true).parse_hostname(&host(record(&java_fields("a", "1")))),
        Err(FloodgateError::FloodgateDisabled)
    ));
}

#[test]
fn parses_education_fields() {
    let d = parse_data(&education_fields("Kid", "x", "tenant", "-7")).unwrap();
    assert!(d.education);
    assert_eq!(d.tenant_id, "tenant");
    assert_eq!(d.ad_role, -7);
    assert!(matches!(
        parse_data(&education_fields("Kid", "x", "tenant", "role")),
        Err(FloodgateError::InvalidAdRole)
    ));
    let not_education = parse_data(&education_fields("Kid", "x", "tenant", "3").replace("\01\0tenant", "\00\0tenant"))
        .unwrap();
    assert!(!not_education.education);
}

#[test]
fn truncates_at_char_boundaries() {
    assert_eq!(truncate_utf8("abcdef", 10), "abcdef");
    assert_eq!(truncate_utf8("abcdef", 3), "abc");
    // 'é' takes two bytes: cutting inside it backs off to the boundary before.
    assert_eq!(truncate_utf8("aé", 2), "a");
    assert_eq!(truncate_utf8("aé", 3), "aé");
    assert_eq!(truncate_utf8("é", 0), "");
}

#[test]
fn java_game_profile() {
    let (name, id) = config(true, false)
        .game_profile(&data("Steve Bob", "2535400000000001", false, ""))
        .unwrap();
    assert_eq!(name, ".Steve_Bob");
    assert_eq!(id, 2535400000000001u128);
    assert!(matches!(
        config(true, false).game_profile(&data("Steve", "-1", false, "")),
        Err(FloodgateError::InvalidXuid)
    ));
}

#[test]
fn long_names_are_cut_to_sixteen_bytes() {
    let mut c = config(true, false);
    c.replace_spaces = false;
    let (name, _) = c.game_profile(&data("ABCDEFGHIJKLMNOPQRS T", "1", false, "")).unwrap();
    assert_eq!(name, ".ABCDEFGHIJKLMNO");
}

#[test]
fn education_profile_from_entra_oid() {
    let mut c = config(false, true);
    c.education_uuid_legacy = false;
    let oid = "01234567-89ab-cdef-0123-456789abcdef";
    let (name, id) = c.game_profile(&data("Kid", oid, true, "t")).unwrap();
    assert_eq!(name, "+Kid");
    let parsed: u128 = 0x0123456789abcdef0123456789abcdef;
    let msb = (parsed >> 64) as u64;
    let lsb = parsed as u64;
    let upper = ((msb >> 16) << 12) | (msb & 0xFFF);
    let lower = (lsb << 2) >> 60;
    let expected = (0x0000000100000001u128 << 64) | u128::from((upper << 4) | lower);
    assert_eq!(id, expected);
    assert!(matches!(
        c.game_profile(&data("Kid", "not-a-uuid", true, "t")),
        Err(FloodgateError::InvalidEducationXuid)
    ));
}

#[test]
fn education_profile_legacy_hash() {
    let mut c = config(false, true);
    c.education_uuid_legacy = true;
    let (_, id) = c.game_profile(&data("Kid", "ignored", true, "tenant")).unwrap();
    let digest = Sha256::digest(b"tenant:Kid");
    let mut lsb = 0u64;
    for byte in digest.iter().take(8) {
        lsb = (lsb << 8) | u64::from(*byte);
    }
    assert_eq!(id, (0x0000000100000001u128 << 64) | u128::from(lsb));
}
