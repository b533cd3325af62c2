use vibi_core::crypto::{can_decrypt, decrypt_session_data, encrypt_session_data, hex_decode, hex_encode};

#[test]
fn hex_encode_is_lowercase_two_digits_per_byte() {
    assert_eq!(hex_encode(&[0x00, 0x0f, 0xab, 0xff]), "000fabff");
    assert_eq!(hex_encode(&[]), "");
}

#[test]
fn hex_decode_reads_pairs() {
    assert_eq!(hex_decode("000fABff").unwrap(), vec![0x00, 0x0f, 0xab, 0xff]);
    assert_eq!(hex_decode("").unwrap(), Vec::<u8>::new());
}

#[test]
fn hex_decode_errors() {
    assert_eq!(hex_decode("abc").unwrap_err(), "Invalid hex length");
    assert_eq!(hex_decode("zz").unwrap_err(), "Hex error: ParseIntError { kind: InvalidDigit }");
}

#[test]
fn hex_decode_accepts_a_leading_plus_in_a_pair() {
    assert_eq!(hex_decode("+f").unwrap(), vec![0x0f]);
}

#[test]
fn hex_round_trip() {
    let bytes: Vec<u8> = (0u8..=255).collect();
    assert_eq!(hex_decode(&hex_encode(&bytes)).unwrap(), bytes);
}

#[test]
fn decrypt_undoes_encrypt() {
    let text = "{\"session_id\":\"s\",\"entries\":[]} é ✓";
    let sealed = encrypt_session_data(text).unwrap();
    let fields: Vec<&str> = sealed.split(':').collect();
    assert_eq!(fields.len(), 3);
    assert_eq!(fields[0].len(), 64);
    assert_eq!(fields[1].len(), 24);
    assert_eq!(fields[2].len(), 2 * (text.len() + 16));
    assert_eq!(decrypt_session_data(&sealed).unwrap(), text);
}

#[test]
fn encryptions_differ_but_both_decrypt() {
    let a = encrypt_session_data("same").unwrap();
    let b = encrypt_session_data("same").unwrap();
    assert_ne!(a, b);
    assert_eq!(decrypt_session_data(&a).unwrap(), "same");
    assert_eq!(decrypt_session_data(&b).unwrap(), "same");
}

#[test]
fn decrypt_rejects_bad_format() {
    assert_eq!(decrypt_session_data("nocolons").unwrap_err(), "Invalid format");
    assert_eq!(decrypt_session_data("a:b:c:d").unwrap_err(), "Invalid format");
    assert_eq!(decrypt_session_data("abc:00:00").unwrap_err(), "Invalid hex length");
    assert_eq!(decrypt_session_data("00:0011:00").unwrap_err(), "Invalid nonce length");
}

#[test]
fn decrypt_detects_tampering() {
    let sealed = encrypt_session_data("secret log").unwrap();
    let mut bytes = sealed.into_bytes();
    let last = bytes.len() - 1;
    bytes[last] = if bytes[last] == b'0' { b'1' } else { b'0' };
    let tampered = String::from_utf8(bytes).unwrap();
    assert_eq!(
        decrypt_session_data(&tampered).unwrap_err(),
        "🔒 FILE TAMPERED — Cannot decrypt. This session log has been modified externally."
    );
}

#[test]
fn envelopes_are_checked_before_decrypting() {
    let sealed = encrypt_session_data("{\"entries\":[]}").unwrap();
    assert!(can_decrypt(&sealed));
    assert!(can_decrypt("no colons here"));
    assert!(can_decrypt("a:b:c:d"));
    assert!(!can_decrypt("a€:00:00"));
    assert!(can_decrypt("zz:a€:00"));
    assert!(!can_decrypt("00:a€:00"));
    assert!(!can_decrypt("00:00:a€"));
    assert!(can_decrypt("00:0:a€"));
}
