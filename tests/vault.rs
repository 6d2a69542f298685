use skeleton_stick::password_file::{
    EncryptParams, EncryptedPasswordFile, PasswordEntry, PasswordFile, VaultError,
    CURRENT_VERSION, FILE_START, HEADER_LEN,
};

fn params() -> EncryptParams {
    EncryptParams::new(4, 8, 1).unwrap()
}

fn sample() -> PasswordFile {
    PasswordFile::new(vec![
        PasswordEntry::new("mail".to_string(), "hunter2".to_string()),
        PasswordEntry::new("bank".to_string(), "c0rrect horse".to_string()),
        PasswordEntry::new("ünïcode".to_string(), "".to_string()),
    ])
}

#[test]
fn seal_then_unseal_gives_the_vault_back() {
    let v = sample();
    let sealed = v.encrypt(params(), b"test").unwrap();
    assert_eq!(sealed.decrypt(b"test").unwrap(), v);
}

#[test]
fn empty_vault_round_trips() {
    let v = PasswordFile::new(vec![]);
    let sealed = v.encrypt(params(), b"").unwrap();
    assert_eq!(sealed.decrypt(b"").unwrap(), v);
}

#[test]
fn wrong_password_fails_authentication() {
    let sealed = sample().encrypt(params(), b"test").unwrap();
    assert_eq!(sealed.decrypt(b"tesT"), Err(VaultError::AuthenticationFailure));
    assert_eq!(sealed.decrypt(b""), Err(VaultError::AuthenticationFailure));
}

fn flip_and_open(offset: usize, bit: u8) -> Result<PasswordFile, VaultError> {
    let sealed = sample().encrypt(params(), b"test").unwrap();
    let mut bytes = sealed.to_bytes();
    bytes[offset] ^= bit;
    EncryptedPasswordFile::from_bytes(&bytes).unwrap().decrypt(b"test")
}

#[test]
fn flipped_bits_fail_authentication() {
    // salt, nonce, first and last ciphertext byte
    assert_eq!(flip_and_open(33, 1), Err(VaultError::AuthenticationFailure));
    assert_eq!(flip_and_open(64, 0x80), Err(VaultError::AuthenticationFailure));
    assert_eq!(flip_and_open(65, 4), Err(VaultError::AuthenticationFailure));
    assert_eq!(flip_and_open(76, 1), Err(VaultError::AuthenticationFailure));
    assert_eq!(flip_and_open(HEADER_LEN, 1), Err(VaultError::AuthenticationFailure));
    let len = sample().encrypt(params(), b"test").unwrap().to_bytes().len();
    assert_eq!(flip_and_open(len - 1, 0x10), Err(VaultError::AuthenticationFailure));
}

#[test]
fn fixed_salt_and_nonce_seal_deterministically() {
    let v = sample();
    let a = v.encrypt_with(params(), b"pw", [7; 32], [9; 12]).unwrap();
    let b = v.encrypt_with(params(), b"pw", [7; 32], [9; 12]).unwrap();
    let c = v.encrypt_with(params(), b"pX", [7; 32], [9; 12]).unwrap();
    assert_eq!(a.ciphertext(), b.ciphertext());
    assert_ne!(a.ciphertext(), c.ciphertext());
    assert_eq!(a.salt(), [7; 32]);
    assert_eq!(a.nonce(), [9; 12]);
    assert_eq!(a.decrypt(b"pw").unwrap(), v);
}

#[test]
fn ciphertext_is_compressed_payload_plus_tag() {
    let entries: Vec<PasswordEntry> = (0..50)
        .map(|_| PasswordEntry::new("same name".to_string(), "same secret".to_string()))
        .collect();
    let v = PasswordFile::new(entries);
    let payload = v.to_payload();
    let sealed = v.encrypt(params(), b"pw").unwrap();
    assert!(sealed.ciphertext().len() < payload.len());
    assert_ne!(&sealed.ciphertext()[..16], &payload[..16]);
}

#[test]
fn fresh_salt_and_nonce_each_seal() {
    let v = sample();
    let a = v.encrypt(params(), b"pw").unwrap();
    let b = v.encrypt(params(), b"pw").unwrap();
    assert_ne!(a.salt(), b.salt());
    assert_ne!(a.nonce(), b.nonce());
    assert_ne!(a.ciphertext(), b.ciphertext());
}

#[test]
fn params_out_of_range_are_refused() {
    assert_eq!(EncryptParams::new(4, 0, 1), Err(VaultError::InvalidParams));
    assert_eq!(EncryptParams::new(4, 8, 0), Err(VaultError::InvalidParams));
    assert_eq!(EncryptParams::new(16, 1, 1), Err(VaultError::InvalidParams));
    assert_eq!(EncryptParams::new(64, 8, 1), Err(VaultError::InvalidParams));
    assert_eq!(EncryptParams::new(4, 1 << 20, 1 << 10), Err(VaultError::InvalidParams));
    let p = EncryptParams::new(15, 1, 1).unwrap();
    assert_eq!((p.log_n(), p.r(), p.p()), (15, 1, 1));
}

#[test]
fn file_layout_is_byte_exact() {
    let sealed = sample().encrypt_with(params(), b"pw", [1; 32], [2; 12]).unwrap();
    let bytes = sealed.to_bytes();
    assert_eq!(&bytes[..16], b"__SKELETONSTICK\n");
    assert_eq!(&bytes[..16], &FILE_START);
    assert_eq!(&bytes[16..24], &CURRENT_VERSION.to_be_bytes());
    assert_eq!(bytes[24], 4);
    assert_eq!(&bytes[25..29], &8u32.to_be_bytes());
    assert_eq!(&bytes[29..33], &1u32.to_be_bytes());
    assert_eq!(&bytes[33..65], &[1; 32]);
    assert_eq!(&bytes[65..77], &[2; 12]);
    let n = sealed.ciphertext().len() as u64;
    assert_eq!(&bytes[77..85], &n.to_be_bytes());
    assert_eq!(&bytes[85..], sealed.ciphertext());
}

#[test]
fn written_file_reads_back() {
    let sealed = sample().encrypt(params(), b"pw").unwrap();
    let bytes = sealed.to_bytes();
    let read = EncryptedPasswordFile::from_bytes(&bytes).unwrap();
    assert_eq!(read.to_bytes(), bytes);
    assert_eq!(read.params(), params());
    assert_eq!(read.decrypt(b"pw").unwrap(), sample());
}

#[test]
fn mutated_magic_is_rejected() {
    let mut bytes = sample().encrypt(params(), b"pw").unwrap().to_bytes();
    bytes[3] = b'X';
    assert!(matches!(EncryptedPasswordFile::from_bytes(&bytes), Err(VaultError::BadMagic)));
}

#[test]
fn mutated_version_is_rejected() {
    let mut bytes = sample().encrypt(params(), b"pw").unwrap().to_bytes();
    bytes[23] = 2;
    assert!(matches!(
        EncryptedPasswordFile::from_bytes(&bytes),
        Err(VaultError::UnsupportedVersion(2))
    ));
}

#[test]
fn truncated_files_are_rejected() {
    let bytes = sample().encrypt(params(), b"pw").unwrap().to_bytes();
    for cut in [0, 10, 16, 20, 24, 50, HEADER_LEN, bytes.len() - 1] {
        assert!(matches!(
            EncryptedPasswordFile::from_bytes(&bytes[..cut]),
            Err(VaultError::Truncated)
        ));
    }
}

#[test]
fn stored_params_are_validated() {
    let mut bytes = sample().encrypt(params(), b"pw").unwrap().to_bytes();
    bytes[25..29].copy_from_slice(&0u32.to_be_bytes());
    assert!(matches!(
        EncryptedPasswordFile::from_bytes(&bytes),
        Err(VaultError::InvalidParams)
    ));
}

#[test]
fn payload_round_trips() {
    let v = sample();
    let payload = v.to_payload();
    assert_eq!(&payload[..8], &4u64.to_be_bytes());
    assert_eq!(&payload[8..12], b"mail");
    assert_eq!(PasswordFile::from_payload(&payload), Some(v));
}

#[test]
fn malformed_payloads_do_not_decode() {
    assert_eq!(PasswordFile::from_payload(&[]), Some(PasswordFile::new(vec![])));
    assert_eq!(PasswordFile::from_payload(&[0, 0, 0]), None);
    let mut one = 1u64.to_be_bytes().to_vec();
    one.push(0xff);
    one.extend_from_slice(&0u64.to_be_bytes());
    assert_eq!(PasswordFile::from_payload(&one), None);
    let mut short = 9u64.to_be_bytes().to_vec();
    short.push(b'a');
    assert_eq!(PasswordFile::from_payload(&short), None);
}

#[test]
fn entry_accessors() {
    let e = PasswordEntry::new("n".to_string(), "s".to_string());
    assert_eq!(e.name(), "n");
    assert_eq!(e.password(), "s");
    assert_eq!(sample().entries().len(), 3);
}

#[test]
fn invalid_params_are_reported_before_truncation() {
    let mut bytes = sample().encrypt(params(), b"pw").unwrap().to_bytes();
    bytes[29..33].copy_from_slice(&0u32.to_be_bytes());
    for cut in [33, 40, 84] {
        assert!(matches!(
            EncryptedPasswordFile::from_bytes(&bytes[..cut]),
            Err(VaultError::InvalidParams)
        ));
    }
    assert!(matches!(EncryptedPasswordFile::from_bytes(&bytes[..32]), Err(VaultError::Truncated)));
}

#[test]
fn sealed_length_is_compressed_payload_plus_tag() {
    let v = sample();
    let sealed = v.encrypt_with(params(), b"pw", [0; 32], [0; 12]).unwrap();
    let mut encoder = flate2::write::ZlibEncoder::new(Vec::new(), flate2::Compression::default());
    std::io::Write::write_all(&mut encoder, &v.to_payload()).unwrap();
    let compressed = encoder.finish().unwrap();
    assert_eq!(sealed.ciphertext().len(), compressed.len() + 16);
}

#[test]
fn decrypt_is_repeatable() {
    let sealed = sample().encrypt(params(), b"pw").unwrap();
    assert_eq!(sealed.decrypt(b"pw"), sealed.decrypt(b"pw"));
    assert_eq!(sealed.decrypt(b"no"), sealed.decrypt(b"no"));
}

#[test]
fn entries_can_be_taken_apart() {
    let entries = sample().into_entries();
    assert_eq!(entries.len(), 3);
    let (name, secret) = entries.into_iter().next().unwrap().into_parts();
    assert_eq!((name.as_str(), secret.as_str()), ("mail", "hunter2"));
}
