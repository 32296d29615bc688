use forge_downloader::{Artifact, Sha1Sum};

#[test]
fn parse_full_descriptor_round_trips() {
    let a = Artifact::parse("net.minecraftforge:forge:1.20.1-47.1.0:installer").unwrap();
    assert_eq!(a.get_descriptor(), "net.minecraftforge:forge:1.20.1-47.1.0:installer");
    assert_eq!(a.artifact_id, "forge");
    assert_eq!(a.version, "1.20.1-47.1.0");
    assert_eq!(a.classifier.as_deref(), Some("installer"));
    assert_eq!(a.ext, "jar");
    assert_eq!(a.group_id, vec!["net".to_string(), "minecraftforge".to_string()]);
}

#[test]
fn parse_minimal_descriptor_round_trips() {
    let a = Artifact::parse("org.ow2.asm:asm:9.3").unwrap();
    assert_eq!(a.get_descriptor(), "org.ow2.asm:asm:9.3");
    assert!(a.classifier.is_none());
    assert_eq!(a.ext, "jar");
}

#[test]
fn parse_with_extension_echoes_pre_marker_text() {
    let a = Artifact::parse("de.oceanlabs.mcp:mcp_config:1.20.1@zip").unwrap();
    assert_eq!(a.ext, "zip");
    // The descriptor echoes the text before the extension marker.
    assert_eq!(a.get_descriptor(), "de.oceanlabs.mcp:mcp_config:1.20.1");
}

#[test]
fn parse_rejects_short_descriptors() {
    assert!(Artifact::parse("only:two").is_err());
    assert!(Artifact::parse("one").is_err());
    assert!(Artifact::parse("").is_err());
}

#[test]
fn file_and_path_derivation() {
    let a = Artifact::parse("net.minecraftforge:forge:1.20.1:universal@zip").unwrap();
    assert_eq!(a.get_file(), "forge-1.20.1-universal.zip");
    assert_eq!(
        a.get_path_vec(),
        vec![
            "net".to_string(),
            "minecraftforge".to_string(),
            "forge".to_string(),
            "1.20.1".to_string(),
            "forge-1.20.1-universal.zip".to_string()
        ]
    );
    assert_eq!(a.get_path_string(), "net/minecraftforge/forge/1.20.1/forge-1.20.1-universal.zip");
    assert_eq!(
        a.get_local_path("/root/libraries"),
        "/root/libraries/net/minecraftforge/forge/1.20.1/forge-1.20.1-universal.zip"
    );
}

#[test]
fn file_without_classifier() {
    let a = Artifact::parse("org.ow2.asm:asm:9.3").unwrap();
    assert_eq!(a.get_file(), "asm-9.3.jar");
    assert_eq!(a.get_path_string(), "org/ow2/asm/asm/9.3/asm-9.3.jar");
}

#[test]
fn clone_preserves_descriptor() {
    let a = Artifact::parse("a.b:c:1").unwrap();
    let b = a.clone();
    assert_eq!(a.get_descriptor(), b.get_descriptor());
    assert_eq!(a.get_path_string(), b.get_path_string());
}

#[test]
fn digest_of_known_bytes() {
    // The SHA-1 of "abc" is a published test vector.
    let d = Sha1Sum::from_bytes(b"abc");
    assert_eq!(d.to_hex(), "a9993e364706816aba3e25717850c26c9cd0d89d");
    assert_eq!(d.to_hex().len(), 40);
}

#[test]
fn digest_of_empty_buffer() {
    let d = Sha1Sum::from_bytes(b"");
    assert_eq!(d.to_hex(), "da39a3ee5e6b4b0d3255bfef95601890afd80709");
}

#[test]
fn digest_hex_round_trip() {
    let d = Sha1Sum::from_bytes(b"round trip me");
    let again = Sha1Sum::from_hex(&d.to_hex()).unwrap();
    assert!(again == d);
}

#[test]
fn digest_from_hex_accepts_upper_case() {
    let lower = Sha1Sum::from_hex("a9993e364706816aba3e25717850c26c9cd0d89d").unwrap();
    let upper = Sha1Sum::from_hex("A9993E364706816ABA3E25717850C26C9CD0D89D").unwrap();
    assert!(lower == upper);
}

#[test]
fn digest_from_hex_rejects_malformed_text() {
    // Odd length.
    assert!(Sha1Sum::from_hex("abc").is_err());
    // Right length, bad digit.
    assert!(Sha1Sum::from_hex("z9993e364706816aba3e25717850c26c9cd0d89d").is_err());
    // Even length, wrong size.
    assert!(Sha1Sum::from_hex("abcd").is_err());
    assert!(Sha1Sum::from_hex("").is_err());
}

#[test]
fn digest_new_wraps_bytes() {
    let d = Sha1Sum::new([0u8; 20]);
    assert_eq!(d.to_hex(), "0000000000000000000000000000000000000000");
    let e = Sha1Sum::new([0xffu8; 20]);
    assert_eq!(e.to_hex(), "ffffffffffffffffffffffffffffffffffffffff");
    assert!(d != e);
}
