use mcproxy::online::{
    bytes_equal, check_encryption_response, generate_offline_uuid, generate_server_id,
    server_id_from_digest, uuid_from_digest, verify_encryption_response, AuthError,
};

fn hex(s: &str) -> Vec<u8> {
    (0..s.len()).step_by(2).map(|i| u8::from_str_radix(&s[i..i + 2], 16).unwrap()).collect()
}

#[test]
fn offline_uuid_of_notch() {
    // MD5("OfflinePlayer:Notch") shaped as a version-3 UUID
    assert_eq!(generate_offline_uuid("Notch"), 0xb50ad385_829d_3141_a216_7e7d7539ba7f);
}

#[test]
fn offline_uuid_of_alice() {
    assert_eq!(generate_offline_uuid("Alice"), 0x10920508_d5d8_3eed_93d2_92f193afe7d7);
}

#[test]
fn uuid_shaping_of_a_digest() {
    let digest = hex("b50ad385829da141a2167e7d7539ba7f");
    assert_eq!(uuid_from_digest(&digest), 0xb50ad385_829d_3141_a216_7e7d7539ba7f);
    assert_eq!(uuid_from_digest(&[0xff; 16]), 0xffffffff_ffff_3fff_bfff_ffffffffffff);
    assert_eq!(uuid_from_digest(&[0x00; 16]), 0x00000000_0000_3000_8000_000000000000);
}

#[test]
fn server_id_of_known_digests() {
    // SHA-1 of "Notch", "jeb_" and "simon"
    assert_eq!(
        server_id_from_digest(&hex("4ed1f46bbe04bc756bcb17c0c7ce3e4632f06a48")),
        "4ed1f46bbe04bc756bcb17c0c7ce3e4632f06a48"
    );
    assert_eq!(
        server_id_from_digest(&hex("8362a4ffbb3ecfef65a284a04a3ce83fd4b1d73f")),
        "-7c9d5b0044c130109a5d7b5fb5c317c02b4e28c1"
    );
    assert_eq!(
        server_id_from_digest(&hex("088e16a1019277b15d58faf0541e11910eb756f6")),
        "88e16a1019277b15d58faf0541e11910eb756f6"
    );
    assert_eq!(server_id_from_digest(&[0u8; 20]), "0");
    assert_eq!(server_id_from_digest(&[0xffu8; 20]), "-1");
}

#[test]
fn server_id_with_zero_secret() {
    let key: Vec<u8> = (1u8..=32).collect();
    assert_eq!(
        generate_server_id(&[0u8; 16], &key),
        "45d8b5e332c3e9f2950589d5570a86c2bb3c39f8"
    );
}

fn rsa_encrypt(key: &openssl::pkey::PKey<openssl::pkey::Private>, data: &[u8]) -> Vec<u8> {
    let mut e = openssl::encrypt::Encrypter::new(key).unwrap();
    e.set_rsa_padding(openssl::rsa::Padding::PKCS1).unwrap();
    let mut out = vec![0; e.encrypt_len(data).unwrap()];
    let n = e.encrypt(data, &mut out).unwrap();
    out.truncate(n);
    out
}

#[test]
fn encryption_response_with_rsa() {
    let key = openssl::pkey::PKey::from_rsa(openssl::rsa::Rsa::generate(1024).unwrap()).unwrap();
    let sent = [9u8, 8, 7, 6];
    let secret: Vec<u8> = (10u8..26).collect();
    let enc_secret = rsa_encrypt(&key, &secret);
    let enc_token = rsa_encrypt(&key, &sent);
    assert_eq!(verify_encryption_response(&key, &sent, &enc_secret, &enc_token), Ok(secret));
    let wrong = rsa_encrypt(&key, &[1, 2, 3, 4]);
    assert_eq!(
        verify_encryption_response(&key, &sent, &enc_secret, &wrong),
        Err(AuthError::InvalidVerifyToken)
    );
    let short = rsa_encrypt(&key, &[1, 2, 3]);
    assert_eq!(
        verify_encryption_response(&key, &sent, &short, &enc_token),
        Err(AuthError::InvalidSharedSecret)
    );
    assert_eq!(
        verify_encryption_response(&key, &sent, &enc_secret, &[1, 2, 3]),
        Err(AuthError::DecryptFailed)
    );
}

#[test]
fn encryption_response_checks() {
    let sent = [1u8, 2, 3, 4];
    assert_eq!(
        check_encryption_response(&sent, &[1, 2, 3, 5], vec![0; 16]),
        Err(AuthError::InvalidVerifyToken)
    );
    assert_eq!(
        check_encryption_response(&sent, &sent, vec![0; 15]),
        Err(AuthError::InvalidSharedSecret)
    );
    assert_eq!(check_encryption_response(&sent, &sent, vec![7; 16]), Ok(vec![7; 16]));
    assert!(bytes_equal(&[1, 2], &[1, 2]));
    assert!(!bytes_equal(&[1, 2], &[1]));
}
