use ratchet_pawl::crypto::{
    decrypt, encrypt, hash_password, holds_hash_text, push_printable, random_printable,
    rtp_take_key, verify_password, CryptoError, HASH_LEN, KEY_WIDTH,
};
use ratchet_pawl::outcome::{conflict, gone, not_found, unauth, Outcome};

fn key_from(secret: &str) -> ratchet_pawl::crypto::MaskingKey {
    rtp_take_key(&secret.to_string()).expect("a secret that is not empty gives a key")
}

#[test]
fn outcome_texts_are_fixed() {
    assert_eq!(unauth(), "Unauthorized");
    assert_eq!(not_found(), "Not Found");
    assert_eq!(gone(), "Gone");
    assert_eq!(conflict(), "Conflict");
}

#[test]
fn outcome_status_codes() {
    assert_eq!(Outcome::Done.status(), 200);
    assert_eq!(Outcome::Conflict.status(), 409);
    assert_eq!(Outcome::Gone.status(), 410);
    assert_eq!(Outcome::Unauthorized.status(), 401);
    assert_eq!(Outcome::NotFound.status(), 404);
    assert_eq!(Outcome::Failed.status(), 500);
    assert_eq!(Outcome::Conflict.reason(), "Conflict");
    assert_eq!(Outcome::Gone.reason(), "Gone");
    assert_eq!(Outcome::Unauthorized.reason(), "Unauthorized");
    assert_eq!(Outcome::NotFound.reason(), "Not Found");
    assert_eq!(Outcome::Done.reason(), "OK");
}

#[test]
fn empty_secret_gives_no_key() {
    assert!(rtp_take_key(&String::new()).is_none());
}

#[test]
fn short_secret_is_padded_with_zeros() {
    let key = key_from("abc");
    let mut expected = vec![0u8; KEY_WIDTH];
    expected[0] = b'a';
    expected[1] = b'b';
    expected[2] = b'c';
    assert_eq!(key.to_bytes(), expected);
}

#[test]
fn long_secret_is_cut_to_the_key_width() {
    let secret = "0123456789abcdef0123456789abcdefTAIL";
    let key = key_from(secret);
    assert_eq!(key.to_bytes(), secret.as_bytes()[..32].to_vec());
    assert_eq!(key.to_bytes().len(), 32);
}

#[test]
fn secret_of_exactly_the_key_width_is_kept() {
    let secret = "0123456789abcdef0123456789abcdef";
    assert_eq!(key_from(secret).to_bytes(), secret.as_bytes().to_vec());
}

#[test]
fn secret_bytes_are_utf8_bytes() {
    let key = key_from("é");
    assert_eq!(&key.to_bytes()[..3], &[0xc3, 0xa9, 0x00]);
}

#[test]
fn encrypt_then_decrypt_gives_the_payload() {
    let key = key_from("masking key");
    let payload = b"{\"username\":\"alice\",\"passhash\":\"x\"}".to_vec();
    let sealed = encrypt(&key, &payload).unwrap();
    assert_eq!(sealed.len(), payload.len());
    assert_ne!(sealed, payload);
    assert_eq!(decrypt(&key, &sealed).unwrap(), payload);
}

#[test]
fn decrypt_then_encrypt_gives_the_ciphertext() {
    let key = key_from("masking key");
    let ciphertext = vec![7u8, 0, 255, 31, 64, 200, 1, 2, 3];
    let opened = decrypt(&key, &ciphertext).unwrap();
    assert_eq!(opened.len(), ciphertext.len());
    assert_ne!(opened, ciphertext);
    assert_eq!(encrypt(&key, &opened).unwrap(), ciphertext);
}

#[test]
fn round_trip_over_many_lengths() {
    let key = key_from("another key");
    for len in 3usize..80 {
        let payload: Vec<u8> = (0..len).map(|i| (i * 37 + len) as u8).collect();
        let sealed = encrypt(&key, &payload).unwrap();
        assert_eq!(sealed.len(), len);
        assert_eq!(decrypt(&key, &sealed).unwrap(), payload);
    }
}

#[test]
fn encryption_depends_on_the_key() {
    let payload = b"the same payload".to_vec();
    let first = encrypt(&key_from("key one"), &payload).unwrap();
    let second = encrypt(&key_from("key two"), &payload).unwrap();
    assert_ne!(first, second);
    assert_ne!(decrypt(&key_from("key two"), &first).unwrap(), payload);
}

#[test]
fn encryption_is_deterministic() {
    let key = key_from("key");
    let payload = b"payload".to_vec();
    assert_eq!(encrypt(&key, &payload).unwrap(), encrypt(&key, &payload).unwrap());
}

#[test]
fn payload_shorter_than_three_bytes_is_refused() {
    let key = key_from("key");
    assert_eq!(encrypt(&key, &vec![]), Err(CryptoError::OutOfDomain));
    assert_eq!(encrypt(&key, &vec![1]), Err(CryptoError::OutOfDomain));
    assert_eq!(encrypt(&key, &vec![1, 2]), Err(CryptoError::OutOfDomain));
    assert_eq!(decrypt(&key, &vec![1, 2]), Err(CryptoError::OutOfDomain));
    assert!(encrypt(&key, &vec![1, 2, 3]).is_ok());
    assert!(decrypt(&key, &vec![1, 2, 3]).is_ok());
}

#[test]
fn hash_accepts_its_own_password_only() {
    let hash = hash_password("correct horse").unwrap();
    assert_ne!(hash, "correct horse");
    assert!(hash.starts_with("$2"));
    assert!(verify_password("correct horse", &hash));
    assert!(!verify_password("wrong horse", &hash));
}

#[test]
fn hashes_are_salted() {
    let first = hash_password("pw").unwrap();
    let second = hash_password("pw").unwrap();
    assert_ne!(first, second);
    assert!(verify_password("pw", &first));
    assert!(verify_password("pw", &second));
}

#[test]
fn verify_rejects_what_is_no_hash() {
    assert!(!verify_password("pw", "pw"));
    assert!(!verify_password("pw", ""));
}

#[test]
fn verify_accepts_a_known_hash() {
    let known = "$2y$05$bvIG6Nmid91Mu9RcmmWZfO5HJIMCT8riNW0hEp8f6/FuA2/mHZFpe";
    assert!(verify_password("password", known));
    assert!(!verify_password("Password", known));
}

#[test]
fn printable_bytes_are_kept_and_others_dropped() {
    let mut secret: Vec<u8> = Vec::new();
    assert!(push_printable(&mut secret, b'a'));
    assert!(!push_printable(&mut secret, b' '));
    assert!(!push_printable(&mut secret, 0));
    assert!(!push_printable(&mut secret, 127));
    assert!(!push_printable(&mut secret, 200));
    assert!(push_printable(&mut secret, b'!'));
    assert!(push_printable(&mut secret, b'~'));
    assert_eq!(secret, b"a!~".to_vec());
}

#[test]
fn random_secret_has_the_length_asked_for() {
    for len in [0usize, 1, 16, 72, 128] {
        let secret = random_printable(len).unwrap();
        assert_eq!(secret.len(), len);
        assert!(secret.bytes().all(|b| (33..=126).contains(&b)));
    }
}

#[test]
fn random_secrets_differ() {
    assert_ne!(random_printable(32).unwrap(), random_printable(32).unwrap());
}

#[test]
fn secret_of_no_characters_is_always_given() {
    assert_eq!(random_printable(0), Some(String::new()));
}

#[test]
fn hash_is_sixty_bytes_of_hash_text() {
    let hash = hash_password("pw").unwrap();
    assert_eq!(HASH_LEN, 60);
    assert_eq!(hash.len(), 60);
    assert!(holds_hash_text(&hash));
    assert!(hash.starts_with("$2b$10$"));
}

#[test]
fn hash_text_is_blank_to_tilde() {
    assert!(holds_hash_text(""));
    assert!(holds_hash_text(" ~$2b./Az09"));
    assert!(!holds_hash_text("\u{1f}"));
    assert!(!holds_hash_text("abc\u{7f}"));
    assert!(!holds_hash_text("ab\u{80}c"));
    assert!(!holds_hash_text("\n"));
    assert!(!holds_hash_text("\u{e9}"));
}

#[test]
fn verify_refuses_a_hash_with_a_control_character_in_the_salt() {
    let hash = format!("$2b$10${}{}", "\u{1}".repeat(22), "a".repeat(31));
    assert!(!verify_password("pw", &hash));
    let hash = format!("$2b$10$abc\u{0}{}", "a".repeat(49));
    assert!(!verify_password("pw", &hash));
}

#[test]
fn verify_refuses_a_hash_with_a_character_past_ascii_in_the_salt() {
    let hash = format!("$2b$10${}{}", "\u{80}".repeat(11), "a".repeat(31));
    assert!(!verify_password("pw", &hash));
    let hash = format!("$2b$10${}{}", "\u{e9}".repeat(11), "a".repeat(31));
    assert!(!verify_password("pw", &hash));
}

#[test]
fn verify_refuses_hash_text_that_is_no_hash() {
    assert!(!verify_password("pw", "$2b$10$"));
    assert!(!verify_password("pw", "$2b$10$short"));
    assert!(!verify_password("pw", "$2b$99$bvIG6Nmid91Mu9RcmmWZfO5HJIMCT8riNW0hEp8f6/FuA2/mHZFpe"));
    assert!(!verify_password("pw", "$2b$05$bvIG6Nmid91Mu9Rc  WZfO5HJIMCT8riNW0hEp8f6/FuA2/mHZFpe"));
}
