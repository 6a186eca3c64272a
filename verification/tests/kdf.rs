use md5::{Digest, Md5};
use uuid::Uuid;
use vmess_kdf::{kdf, KdfError, RecursiveHash, BLOCK_LEN};

#[test]
fn test_kdf() {
    let uuid = Uuid::parse_str("96850032-1b92-46e9-a4f2-b99631456894").unwrap();
    let mut hasher = Md5::new();
    hasher.update(uuid.as_bytes());
    hasher.update(b"c48619fe-8f02-49e0-b9e9-edf763e17e21");
    let key = hasher.finalize();

    let result = kdf(key.as_slice(), &[&b"AES Auth ID Encryption"[..]]).unwrap();

    assert_eq!(
        &result[..16],
        &[117, 82, 144, 159, 147, 65, 74, 253, 91, 74, 70, 84, 114, 118, 203, 30]
    );
}

#[test]
fn kdf_is_deterministic() {
    let key = b"some root key material";
    let path: &[&[u8]] = &[&b"first label"[..], &b"second label"[..]];
    let first = kdf(key, path).unwrap();
    let second = kdf(key, path).unwrap();
    assert_eq!(first, second);
}

#[test]
fn kdf_is_path_order_sensitive() {
    let key = b"some root key material";
    let a = &b"label a"[..];
    let b = &b"label b"[..];
    let forward = kdf(key, &[a, b]).unwrap();
    let backward = kdf(key, &[b, a]).unwrap();
    assert_ne!(forward, backward);
}

#[test]
fn kdf_is_key_sensitive() {
    let path: &[&[u8]] = &[&b"shared label"[..]];
    let first = kdf(b"key one", path).unwrap();
    let second = kdf(b"key two", path).unwrap();
    assert_ne!(first, second);
}

#[test]
fn kdf_empty_path_matches_single_mac() {
    let key = b"example key material";
    let via_kdf = kdf(key, &[]).unwrap();

    let mut mac = RecursiveHash::new(b"VMess AEAD KDF").unwrap();
    mac.update(key);
    let direct = mac.finalize();

    assert_eq!(via_kdf, direct);
}

#[test]
fn kdf_accepts_label_of_one_block() {
    let label = [0x41u8; 64];
    assert_eq!(label.len(), BLOCK_LEN);
    let result = kdf(b"key", &[&label[..]]);
    assert!(result.is_ok());
}

#[test]
fn kdf_rejects_label_over_one_block() {
    let label = [0x41u8; 65];
    let result = kdf(b"key", &[&label[..]]);
    assert!(matches!(result, Err(KdfError::KeyTooLong)));
}

#[test]
fn kdf_long_key_material_is_accepted() {
    // Only MAC keys are bounded by the block size; the key material that the
    // last MAC absorbs may be arbitrarily long.
    let key = [0x7fu8; 200];
    let result = kdf(&key, &[&b"label"[..]]);
    assert!(result.is_ok());
}

#[test]
fn mac_rejects_key_over_one_block() {
    let key = [0u8; 65];
    let result = RecursiveHash::new(&key);
    assert!(matches!(result, Err(KdfError::KeyTooLong)));
}

#[test]
fn mac_matches_hmac_sha256_test_vector() {
    // RFC 4231, test case 2: HMAC-SHA-256 with key "Jefe" over
    // "what do ya want for nothing?".
    let mut mac = RecursiveHash::new(b"Jefe").unwrap();
    mac.update(b"what do ya want for nothing?");
    let tag = mac.finalize();
    let expected: [u8; 32] = [
        0x5b, 0xdc, 0xc1, 0x46, 0xbf, 0x60, 0x75, 0x4e, 0x6a, 0x04, 0x24, 0x26, 0x08, 0x95,
        0x75, 0xc7, 0x5a, 0x00, 0x3f, 0x08, 0x9d, 0x27, 0x39, 0x83, 0x9d, 0xec, 0x58, 0xb9,
        0x64, 0xec, 0x38, 0x43,
    ];
    assert_eq!(tag, expected);
}

#[test]
fn mac_update_order_is_significant() {
    let mut one = RecursiveHash::new(b"key").unwrap();
    one.update(b"ab");
    one.update(b"cd");

    let mut two = RecursiveHash::new(b"key").unwrap();
    two.update(b"cd");
    two.update(b"ab");

    assert_ne!(one.finalize(), two.finalize());
}

#[test]
fn mac_update_chunking_is_immaterial() {
    let mut chunked = RecursiveHash::new(b"key").unwrap();
    chunked.update(b"ab");
    chunked.update(b"cd");

    let mut whole = RecursiveHash::new(b"key").unwrap();
    whole.update(b"abcd");

    assert_eq!(chunked.finalize(), whole.finalize());
}
