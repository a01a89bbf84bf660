use pico_limbo::game_profile::{offline_uuid_from_username, GameProfile, Property};
use sha2::{Digest, Sha256};

#[test]
fn login_start_without_uuid_gets_stable_fallback_uuid() {
    let first = GameProfile::from_login("PlayerName".to_string(), 0);
    let second = GameProfile::from_login("PlayerName".to_string(), 0);
    assert_ne!(first.uuid(), 0);
    assert_eq!(first.uuid(), second.uuid());
}

#[test]
fn offline_uuid_is_name_based_version_three() {
    let mut hasher = Sha256::new();
    hasher.update(b"OfflinePlayer:");
    hasher.update("Notch".as_bytes());
    let digest = hasher.finalize();
    let mut bytes = [0u8; 16];
    bytes.copy_from_slice(&digest[..16]);
    bytes[6] = (bytes[6] & 0x0F) | 0x30;
    bytes[8] = (bytes[8] & 0x3F) | 0x80;
    let expected = u128::from_be_bytes(bytes);
    let id = offline_uuid_from_username("Notch");
    assert_eq!(id, expected);
    assert_eq!((id >> 76) & 0xF, 3);
    assert_eq!((id >> 62) & 0x3, 2);
}

#[test]
fn login_keeps_a_sent_uuid() {
    let p = GameProfile::from_login("Steve".to_string(), 42);
    assert_eq!(p.uuid(), 42);
    assert_eq!(p.username(), "Steve");
    assert!(p.textures().is_none());
}

#[test]
fn profile_names_are_cut_at_sixteen_bytes() {
    let p = GameProfile::new("ABCDEFGHIJKLMNOPQRST", 1, None);
    assert_eq!(p.username(), "ABCDEFGHIJKLMNOP");
    // 16 is inside a two-byte character: the name is kept whole.
    let name = "ABCDEFGHIJKLMNOé";
    let p = GameProfile::new(name, 1, None);
    assert_eq!(p.username(), name);
    let p = GameProfile::new("short", 1, None);
    assert_eq!(p.username(), "short");
}

#[test]
fn anonymous_and_renamed_profiles() {
    let textures = Property { name: "textures".into(), value: "abc".into(), signature: None };
    let mut p = GameProfile::anonymous(7, Some(textures));
    assert!(p.is_anonymous());
    p.set_name("Alex");
    assert!(!p.is_anonymous());
    assert_eq!(p.username(), "Alex");
    assert_eq!(p.uuid(), 7);
    assert_eq!(p.textures().unwrap().value, "abc");
    let copy = p.clone();
    assert_eq!(copy.username(), "Alex");
}
