use base64::engine::general_purpose::URL_SAFE_NO_PAD;
use base64::Engine;
use file_commander::hash::bytes_to_hex;
use file_commander::registration::{
    decode_hex, from_hex, proof_for, sanitize_name, verify_code, verify_payload,
    RegistrationError, CODE_PREFIX, SECRET_TEXT,
};
use sha2::{Digest, Sha256};

fn signature(name: &str) -> Vec<u8> {
    let mut hasher = Sha256::new();
    hasher.update(name.as_bytes());
    hasher.update(SECRET_TEXT.as_bytes());
    hasher.finalize()[..12].to_vec()
}

fn code_for_body(body: &str) -> String {
    format!("{CODE_PREFIX}-{}", URL_SAFE_NO_PAD.encode(body.as_bytes()))
}

fn code_for(name: &str) -> String {
    code_for_body(&format!("{name}|{}", bytes_to_hex(&signature(name))))
}

fn refusal(code: &str) -> RegistrationError {
    match verify_code(code) {
        Ok(l) => panic!("accepted for {}", l.name),
        Err(e) => e,
    }
}

#[test]
fn a_signed_code_is_accepted() {
    let license = verify_code(&code_for("Ada Lovelace")).expect("valid code");
    assert_eq!(license.name, "Ada Lovelace");
    let padded = format!("  {}\n", code_for("Grace"));
    assert_eq!(verify_code(&padded).expect("valid code").name, "Grace");
}

#[test]
fn the_signature_is_the_truncated_digest() {
    assert_eq!(proof_for("Ada Lovelace"), signature("Ada Lovelace"));
    assert_eq!(proof_for("x").len(), 12);
}

#[test]
fn uppercase_hex_is_accepted() {
    let name = "Bob";
    let body = format!("{name}|{}", bytes_to_hex(&signature(name)).to_uppercase());
    assert_eq!(verify_code(&code_for_body(&body)).expect("valid code").name, "Bob");
}

#[test]
fn the_name_is_cleaned_before_checking() {
    // the signature is over the cleaned name
    let body = format!("  Eve  |{}", bytes_to_hex(&signature("Eve")));
    assert_eq!(verify_code(&code_for_body(&body)).expect("valid code").name, "Eve");
    let body = format!("a\nb|{}", bytes_to_hex(&signature("a b")));
    assert_eq!(verify_code(&code_for_body(&body)).expect("valid code").name, "a b");
}

#[test]
fn every_refusal_has_its_reason() {
    assert_eq!(refusal("FREG2-abc"), RegistrationError::InvalidPrefix);
    assert_eq!(refusal("FREG1abc"), RegistrationError::InvalidPrefix);
    assert_eq!(refusal("FREG1-***"), RegistrationError::InvalidEncoding);
    let bad_utf8 = format!("{CODE_PREFIX}-{}", URL_SAFE_NO_PAD.encode([0xffu8, 0xfe, 0x7c]));
    assert_eq!(refusal(&bad_utf8), RegistrationError::InvalidBody);
    assert_eq!(refusal(&code_for_body("Ada|abcd")), RegistrationError::InvalidSignatureLength);
    assert_eq!(refusal(&code_for_body("Ada")), RegistrationError::InvalidSignatureLength);
    let sig = bytes_to_hex(&signature("x"));
    assert_eq!(refusal(&code_for_body(&format!("   |{sig}"))), RegistrationError::EmptyName);
    let long = "n".repeat(65);
    assert_eq!(refusal(&code_for_body(&format!("{long}|{sig}"))), RegistrationError::NameTooLong);
    assert_eq!(
        refusal(&code_for_body("Ada|zz0000000000000000000000")),
        RegistrationError::InvalidHexCharacter
    );
    assert_eq!(
        refusal(&code_for_body("Ada|é0000000000000000000000")),
        RegistrationError::InvalidHexCharacter
    );
    assert_eq!(refusal(&code_for_body(&format!("Ada|{sig}"))), RegistrationError::SignatureMismatch);
}

#[test]
fn error_messages() {
    assert_eq!(RegistrationError::InvalidPrefix.message(), "Invalid code prefix");
    assert_eq!(RegistrationError::InvalidEncoding.message(), "Invalid code encoding");
    assert_eq!(RegistrationError::InvalidBody.message(), "Invalid code body");
    assert_eq!(RegistrationError::InvalidSignatureLength.message(), "Invalid signature length");
    assert_eq!(RegistrationError::EmptyName.message(), "Registration name cannot be empty");
    assert_eq!(RegistrationError::NameTooLong.message(), "Registration name too long");
    assert_eq!(RegistrationError::InvalidHexPayload.message(), "Invalid hex payload");
    assert_eq!(RegistrationError::InvalidHexCharacter.message(), "Invalid hex character");
    assert_eq!(RegistrationError::SignatureMismatch.message(), "Signature mismatch");
}

#[test]
fn names_are_trimmed_and_bounded() {
    assert_eq!(sanitize_name("  Ada \t").unwrap(), "Ada");
    assert_eq!(sanitize_name("a\r\nb").unwrap(), "a  b");
    assert_eq!(sanitize_name(" \n ").unwrap_err(), RegistrationError::EmptyName);
    assert_eq!(sanitize_name(&"x".repeat(64)).unwrap(), "x".repeat(64));
    assert_eq!(sanitize_name(&"x".repeat(65)).unwrap_err(), RegistrationError::NameTooLong);
    // 22 three-byte characters are 66 bytes
    assert_eq!(sanitize_name(&"€".repeat(22)).unwrap_err(), RegistrationError::NameTooLong);
    assert_eq!(sanitize_name(&"€".repeat(21)).unwrap(), "€".repeat(21));
}

#[test]
fn hex_digits_and_pairs() {
    assert_eq!(from_hex('0'), Ok(0));
    assert_eq!(from_hex('9'), Ok(9));
    assert_eq!(from_hex('a'), Ok(10));
    assert_eq!(from_hex('F'), Ok(15));
    assert_eq!(from_hex('g'), Err(RegistrationError::InvalidHexCharacter));
    assert_eq!(decode_hex("00ff7A"), Ok(vec![0, 255, 122]));
    assert_eq!(decode_hex(""), Ok(vec![]));
    assert_eq!(decode_hex("abc"), Err(RegistrationError::InvalidHexPayload));
    assert_eq!(decode_hex("0g"), Err(RegistrationError::InvalidHexCharacter));
    let bytes: Vec<u8> = (0..=255u8).collect();
    assert_eq!(decode_hex(&bytes_to_hex(&bytes)), Ok(bytes));
}

#[test]
fn bodies_are_checked_directly() {
    let name = "Linus";
    let body = format!("{name}|{}", bytes_to_hex(&signature(name)));
    assert_eq!(verify_payload(body.into_bytes()).expect("valid body").name, "Linus");
    assert_eq!(verify_payload(vec![0xc3]).unwrap_err(), RegistrationError::InvalidBody);
}
