//! Offline registration codes.
//!
//! A code is `FREG1-` followed by the URL-safe Base64 (no padding) encoding
//! of `name|signature`, where the signature is the first 12 bytes of the
//! SHA-256 digest of the name's UTF-8 bytes followed by a fixed secret,
//! written as 24 hexadecimal digits.
use vstd::prelude::*;
use vstd::utf8::{
    valid_utf8, decode_utf8, encode_utf8, encode_utf8_valid_utf8, encode_utf8_decode_utf8,
};
use crate::digest::{sha256_of, sha256_digest};
use crate::hash::{hex_digit, hex_text};
use crate::text::{trim, trimmed, chars_of, string_from_chars, push_char};

verus! {

pub const CODE_PREFIX: &'static str = "FREG1";

/// The secret appended to the name before hashing.
pub const SECRET_TEXT: &'static str = "f::cmd::reg::seed-2025-guard-key";

/// Why a registration code was refused.
#[derive(Debug, Clone, Copy, PartialEq, Eq, Structural)]
pub enum RegistrationError {
    InvalidPrefix,
    InvalidEncoding,
    InvalidBody,
    InvalidSignatureLength,
    EmptyName,
    NameTooLong,
    InvalidHexPayload,
    InvalidHexCharacter,
    SignatureMismatch,
}

/// The message shown for an error.
pub open spec fn error_text(e: RegistrationError) -> Seq<char> {
    match e {
        RegistrationError::InvalidPrefix => "Invalid code prefix"@,
        RegistrationError::InvalidEncoding => "Invalid code encoding"@,
        RegistrationError::InvalidBody => "Invalid code body"@,
        RegistrationError::InvalidSignatureLength => "Invalid signature length"@,
        RegistrationError::EmptyName => "Registration name cannot be empty"@,
        RegistrationError::NameTooLong => "Registration name too long"@,
        RegistrationError::InvalidHexPayload => "Invalid hex payload"@,
        RegistrationError::InvalidHexCharacter => "Invalid hex character"@,
        RegistrationError::SignatureMismatch => "Signature mismatch"@,
    }
}

impl RegistrationError {
    /// The message shown for the error.
    pub fn message(&self) -> (r: String)
        ensures
            r@ == error_text(*self),
    {
        let text: &str = match self {
            RegistrationError::InvalidPrefix => "Invalid code prefix",
            RegistrationError::InvalidEncoding => "Invalid code encoding",
            RegistrationError::InvalidBody => "Invalid code body",
            RegistrationError::InvalidSignatureLength => "Invalid signature length",
            RegistrationError::EmptyName => "Registration name cannot be empty",
            RegistrationError::NameTooLong => "Registration name too long",
            RegistrationError::InvalidHexPayload => "Invalid hex payload",
            RegistrationError::InvalidHexCharacter => "Invalid hex character",
            RegistrationError::SignatureMismatch => "Signature mismatch",
        };
        let v = chars_of(text);
        string_from_chars(&v)
    }
}

/// Minimal registration data returned after successful verification.
#[derive(Debug, Clone)]
pub struct License {
    pub name: String,
}

// ---------------------------------------------------------------------------
// Specification
// ---------------------------------------------------------------------------

/// What `URL_SAFE_NO_PAD.decode` of `base64` returns for a text with the
/// given characters: the decoded bytes, or `None` when it is refused.
pub uninterp spec fn base64_url_decoded(text: Seq<char>) -> Option<Seq<u8>>;

/// The text before the first `|`, or all of it.
pub open spec fn name_part(text: Seq<char>) -> Seq<char>
    decreases text.len(),
{
    if text.len() == 0 {
        text
    } else if text[0] == '|' {
        Seq::empty()
    } else {
        seq![text[0]] + name_part(text.drop_first())
    }
}

/// The text after the first `|`, or empty when there is none.
pub open spec fn signature_part(text: Seq<char>) -> Seq<char>
    decreases text.len(),
{
    if text.len() == 0 {
        text
    } else if text[0] == '|' {
        text.drop_first()
    } else {
        signature_part(text.drop_first())
    }
}

/// Line breaks become spaces.
pub open spec fn unbroken(c: char) -> char {
    if c == '\r' || c == '\n' {
        ' '
    } else {
        c
    }
}

/// `sanitize_name`: the trimmed name, which must not be empty nor longer
/// than 64 bytes, with line breaks replaced by spaces.
pub open spec fn sanitized(name: Seq<char>) -> Result<Seq<char>, RegistrationError> {
    let t = trim(name);
    if t.len() == 0 {
        Err(RegistrationError::EmptyName)
    } else if encode_utf8(t).len() > 64 {
        Err(RegistrationError::NameTooLong)
    } else {
        Ok(t.map_values(|c: char| unbroken(c)))
    }
}

/// The value of a hexadecimal digit.
pub open spec fn hex_value(c: char) -> Option<u8> {
    if '0' <= c && c <= '9' {
        Some(((c as u32) - ('0' as u32)) as u8)
    } else if 'a' <= c && c <= 'f' {
        Some(((c as u32) - ('a' as u32) + 10) as u8)
    } else if 'A' <= c && c <= 'F' {
        Some(((c as u32) - ('A' as u32) + 10) as u8)
    } else {
        None
    }
}

/// Hexadecimal digit pairs as bytes, the first refused digit failing it.
pub open spec fn hex_pairs(s: Seq<char>) -> Result<Seq<u8>, RegistrationError>
    decreases s.len(),
{
    if s.len() == 0 {
        Ok(Seq::empty())
    } else if hex_value(s[0]) is None {
        Err(RegistrationError::InvalidHexCharacter)
    } else if s.len() == 1 || hex_value(s[1]) is None {
        Err(RegistrationError::InvalidHexCharacter)
    } else {
        match hex_pairs(s.skip(2)) {
            Ok(rest) => Ok(
                seq![(hex_value(s[0]).unwrap() * 16 + hex_value(s[1]).unwrap()) as u8] + rest,
            ),
            Err(e) => Err(e),
        }
    }
}

/// `decode_hex`: an odd number of bytes is refused, then digit pairs are read.
pub open spec fn hex_decoded(s: Seq<char>) -> Result<Seq<u8>, RegistrationError> {
    if encode_utf8(s).len() % 2 != 0 {
        Err(RegistrationError::InvalidHexPayload)
    } else {
        hex_pairs(s)
    }
}

/// The signature expected for a (sanitized) name.
pub open spec fn expected_proof(name: Seq<char>) -> Seq<u8> {
    sha256_of(encode_utf8(name) + encode_utf8(SECRET_TEXT@)).take(12)
}

/// The verdict on the decoded body of a code: the registered name, or why
/// it is refused.
pub open spec fn payload_verdict(body: Seq<u8>) -> Result<Seq<char>, RegistrationError> {
    if !valid_utf8(body) {
        Err(RegistrationError::InvalidBody)
    } else {
        let text = decode_utf8(body);
        let sig = signature_part(text);
        if encode_utf8(sig).len() != 24 {
            Err(RegistrationError::InvalidSignatureLength)
        } else {
            match sanitized(name_part(text)) {
                Err(e) => Err(e),
                Ok(clean) => match hex_decoded(sig) {
                    Err(e) => Err(e),
                    Ok(provided) => if provided != expected_proof(clean) {
                        Err(RegistrationError::SignatureMismatch)
                    } else {
                        Ok(clean)
                    },
                },
            }
        }
    }
}

/// `FREG1-`
pub open spec fn code_prefix() -> Seq<char> {
    CODE_PREFIX@.push('-')
}

/// The verdict on a registration code.
pub open spec fn code_verdict(code: Seq<char>) -> Result<Seq<char>, RegistrationError> {
    let t = trim(code);
    let p = code_prefix();
    if !(p.len() <= t.len() && t.take(p.len() as int) == p) {
        Err(RegistrationError::InvalidPrefix)
    } else {
        match base64_url_decoded(t.skip(p.len() as int)) {
            None => Err(RegistrationError::InvalidEncoding),
            Some(body) => payload_verdict(body),
        }
    }
}

/// The result of a verification matches a verdict.
pub open spec fn agrees(r: Result<License, RegistrationError>, v: Result<Seq<char>, RegistrationError>) -> bool {
    match r {
        Ok(l) => v == Ok::<Seq<char>, RegistrationError>(l.name@),
        Err(e) => v == Err::<Seq<char>, RegistrationError>(e),
    }
}

// ---------------------------------------------------------------------------
// Outside calls
// ---------------------------------------------------------------------------

/// `base64::engine::general_purpose::URL_SAFE_NO_PAD.decode`: the decoded
/// bytes, or `None` when the crate refuses the text; named by
/// `base64_url_decoded`.
#[verifier::external_body]
fn decode_base64_url(text: &str) -> (r: Option<Vec<u8>>)
    ensures
        match r {
            Some(v) => base64_url_decoded(text@) == Some(v@),
            None => base64_url_decoded(text@) is None,
        },
{
    base64::Engine::decode(&base64::engine::general_purpose::URL_SAFE_NO_PAD, text).ok()
}

/// `String::from_utf8`: the text when the bytes are valid UTF-8.
#[verifier::external_body]
fn utf8_text(bytes: Vec<u8>) -> (r: Option<String>)
    ensures
        r is Some == valid_utf8(bytes@),
        r matches Some(s) ==> s@ == decode_utf8(bytes@),
{
    String::from_utf8(bytes).ok()
}

// ---------------------------------------------------------------------------
// Implementation
// ---------------------------------------------------------------------------

/// The UTF-8 bytes of a character sequence.
fn utf8_bytes(s: &str) -> (r: Vec<u8>)
    ensures
        r@ == encode_utf8(s@),
{
    s.as_bytes_vec()
}

/// The UTF-8 length of a character sequence in bytes.
fn utf8_len(v: &Vec<char>) -> (r: usize)
    ensures
        r == encode_utf8(v@).len(),
{
    let s = string_from_chars(v);
    let b = utf8_bytes(s.as_str());
    b.len()
}

proof fn lemma_ascii_encoding(s: Seq<char>)
    requires
        forall|i: int| 0 <= i < s.len() ==> (s[i] as u32) < 128,
    ensures
        encode_utf8(s).len() == s.len(),
    decreases s.len(),
{
    if s.len() > 0 {
        assert((s[0] as u32) < 128);
        lemma_ascii_encoding(s.drop_first());
    }
}

/// The value of one hexadecimal digit.
pub fn from_hex(ch: char) -> (r: Result<u8, RegistrationError>)
    ensures
        match r {
            Ok(v) => hex_value(ch) == Some(v),
            Err(e) => hex_value(ch) is None && e == RegistrationError::InvalidHexCharacter,
        },
{
    if '0' <= ch && ch <= '9' {
        Ok((ch as u8) - 48)
    } else if 'a' <= ch && ch <= 'f' {
        Ok((ch as u8) - 97 + 10)
    } else if 'A' <= ch && ch <= 'F' {
        Ok((ch as u8) - 65 + 10)
    } else {
        Err(RegistrationError::InvalidHexCharacter)
    }
}

/// Decodes hexadecimal text into bytes.
pub fn decode_hex(input: &str) -> (r: Result<Vec<u8>, RegistrationError>)
    ensures
        match r {
            Ok(v) => hex_decoded(input@) == Ok::<Seq<u8>, RegistrationError>(v@),
            Err(e) => hex_decoded(input@) == Err::<Seq<u8>, RegistrationError>(e),
        },
{
    let raw = utf8_bytes(input);
    if raw.len() % 2 != 0 {
        return Err(RegistrationError::InvalidHexPayload);
    }
    let chars = chars_of(input);
    let n = chars.len();
    let mut bytes: Vec<u8> = Vec::new();
    let mut i: usize = 0;
    let ghost s = input@;
    assert(s.skip(0) == s);
    while i < n
        invariant
            chars@ == s,
            s == input@,
            n == s.len(),
            i <= n,
            i % 2 == 0,
            encode_utf8(s).len() % 2 == 0,
            forall|j: int| 0 <= j < i ==> hex_value(#[trigger] s[j]) is Some,
            match hex_pairs(s.skip(i as int)) {
                Ok(rest) => hex_pairs(s) == Ok::<Seq<u8>, RegistrationError>(bytes@ + rest),
                Err(e) => hex_pairs(s) == Err::<Seq<u8>, RegistrationError>(e),
            },
        decreases n - i,
    {
        let ghost rest = s.skip(i as int);
        assert(rest[0] == s[i as int]);
        let hi = match from_hex(chars[i]) {
            Ok(v) => v,
            Err(e) => {
                assert(hex_pairs(rest) == Err::<Seq<u8>, RegistrationError>(e));
                return Err(e);
            },
        };
        if i + 1 >= n {
            proof {
                assert forall|j: int| 0 <= j < s.len() implies (s[j] as u32) < 128 by {
                    assert(hex_value(s[j]) is Some);
                }
                lemma_ascii_encoding(s);
            }
            return Err(RegistrationError::InvalidHexCharacter);
        }
        assert(rest[1] == s[i + 1]);
        let lo = match from_hex(chars[i + 1]) {
            Ok(v) => v,
            Err(e) => {
                assert(hex_pairs(rest) == Err::<Seq<u8>, RegistrationError>(e));
                return Err(e);
            },
        };
        assert(rest.skip(2) == s.skip(i + 2));
        let ghost before = bytes@;
        bytes.push(hi * 16 + lo);
        proof {
            match hex_pairs(s.skip(i + 2)) {
                Ok(tail) => {
                    assert(bytes@ + tail == before + (seq![(hi * 16 + lo) as u8] + tail));
                },
                Err(e) => {},
            }
        }
        i = i + 2;
    }
    assert(s.skip(n as int).len() == 0);
    assert(bytes@ + Seq::<u8>::empty() == bytes@);
    Ok(bytes)
}

/// Trims a registration name, checks its length and replaces line breaks.
pub fn sanitize_name(input: &str) -> (r: Result<String, RegistrationError>)
    ensures
        match r {
            Ok(s) => sanitized(input@) == Ok::<Seq<char>, RegistrationError>(s@),
            Err(e) => sanitized(input@) == Err::<Seq<char>, RegistrationError>(e),
        },
{
    let t = trimmed(input);
    if t.len() == 0 {
        return Err(RegistrationError::EmptyName);
    }
    if utf8_len(&t) > 64 {
        return Err(RegistrationError::NameTooLong);
    }
    let mut out = String::new();
    let n = t.len();
    for i in 0..n
        invariant
            n == t@.len(),
            out@ == t@.take(i as int).map_values(|c: char| unbroken(c)),
    {
        let c = t[i];
        let d = if c == '\r' || c == '\n' {
            ' '
        } else {
            c
        };
        push_char(&mut out, d);
        assert(t@.take(i + 1).map_values(|c: char| unbroken(c)) == t@.take(i as int).map_values(
            |c: char| unbroken(c),
        ).push(unbroken(t@[i as int])));
    }
    assert(t@.take(n as int) == t@);
    Ok(out)
}

/// The signature a name must carry: the first 12 bytes of the SHA-256
/// digest of the name's bytes followed by the secret.
pub fn proof_for(name: &str) -> (r: Vec<u8>)
    ensures
        r@ == expected_proof(name@),
        r@.len() == 12,
{
    let mut data = utf8_bytes(name);
    let secret = utf8_bytes(SECRET_TEXT);
    let ghost start = data@;
    let sl = secret.len();
    for i in 0..sl
        invariant
            sl == secret@.len(),
            data@ == start + secret@.take(i as int),
    {
        data.push(secret[i]);
        assert(secret@.take(i + 1) == secret@.take(i as int).push(secret@[i as int]));
    }
    assert(secret@.take(sl as int) == secret@);
    let digest = sha256_digest(data.as_slice());
    let mut r: Vec<u8> = Vec::new();
    for i in 0..12
        invariant
            digest@.len() == 32,
            r@ == digest@.take(i as int),
    {
        r.push(digest[i]);
        assert(digest@.take(i + 1) == digest@.take(i as int).push(digest@[i as int]));
    }
    r
}

fn bytes_equal(a: &Vec<u8>, b: &Vec<u8>) -> (r: bool)
    ensures
        r == (a@ == b@),
{
    if a.len() != b.len() {
        return false;
    }
    let n = a.len();
    for i in 0..n
        invariant
            n == a@.len(),
            n == b@.len(),
            a@.take(i as int) == b@.take(i as int),
    {
        if a[i] != b[i] {
            assert(a@[i as int] != b@[i as int]);
            return false;
        }
        assert(a@.take(i + 1) == a@.take(i as int).push(a@[i as int]));
        assert(b@.take(i + 1) == b@.take(i as int).push(b@[i as int]));
    }
    assert(a@.take(n as int) == a@);
    assert(b@.take(n as int) == b@);
    true
}

/// Splits a body text at its first `|`.
fn split_body(text: &Vec<char>) -> (r: (Vec<char>, Vec<char>))
    ensures
        r.0@ == name_part(text@),
        r.1@ == signature_part(text@),
{
    let n = text.len();
    let mut name: Vec<char> = Vec::new();
    let mut i: usize = 0;
    assert(text@.skip(0) == text@);
    while i < n && text[i] != '|'
        invariant
            n == text@.len(),
            i <= n,
            name_part(text@) == name@ + name_part(text@.skip(i as int)),
            signature_part(text@) == signature_part(text@.skip(i as int)),
        decreases n - i,
    {
        assert(text@.skip(i as int).drop_first() == text@.skip(i + 1));
        name.push(text[i]);
        i = i + 1;
    }
    let mut sig: Vec<char> = Vec::new();
    if i < n {
        assert(text@.skip(i as int).drop_first() == text@.skip(i + 1));
        let mut j = i + 1;
        while j < n
            invariant
                n == text@.len(),
                i < j <= n,
                sig@ == text@.subrange(i + 1, j as int),
            decreases n - j,
        {
            sig.push(text[j]);
            assert(text@.subrange(i + 1, j + 1) == text@.subrange(i + 1, j as int).push(
                text@[j as int],
            ));
            j = j + 1;
        }
        assert(text@.subrange(i + 1, n as int) == text@.skip(i + 1));
    }
    (name, sig)
}

/// Checks the decoded body `name|signature` of a registration code.
pub fn verify_payload(body: Vec<u8>) -> (r: Result<License, RegistrationError>)
    ensures
        agrees(r, payload_verdict(body@)),
{
    let ghost b = body@;
    let text = match utf8_text(body) {
        Some(t) => t,
        None => {
            return Err(RegistrationError::InvalidBody);
        },
    };
    let chars = chars_of(text.as_str());
    let (name, sig) = split_body(&chars);
    if utf8_len(&sig) != 24 {
        return Err(RegistrationError::InvalidSignatureLength);
    }
    let name_text = string_from_chars(&name);
    let clean = match sanitize_name(name_text.as_str()) {
        Ok(c) => c,
        Err(e) => {
            return Err(e);
        },
    };
    let expected = proof_for(clean.as_str());
    let sig_text = string_from_chars(&sig);
    let provided = match decode_hex(sig_text.as_str()) {
        Ok(p) => p,
        Err(e) => {
            return Err(e);
        },
    };
    if !bytes_equal(&provided, &expected) {
        return Err(RegistrationError::SignatureMismatch);
    }
    Ok(License { name: clean })
}

/// Verifies a registration code and obtains the license it grants.
pub fn verify_code(code: &str) -> (r: Result<License, RegistrationError>)
    ensures
        agrees(r, code_verdict(code@)),
{
    let t = trimmed(code);
    let prefix = chars_of(CODE_PREFIX);
    let mut full: Vec<char> = Vec::new();
    let pl = prefix.len();
    for i in 0..pl
        invariant
            pl == prefix@.len(),
            full@ == prefix@.take(i as int),
    {
        full.push(prefix[i]);
        assert(prefix@.take(i + 1) == prefix@.take(i as int).push(prefix@[i as int]));
    }
    assert(prefix@.take(pl as int) == prefix@);
    full.push('-');
    assert(full@ == code_prefix());
    let n = t.len();
    let m = full.len();
    if m > n {
        return Err(RegistrationError::InvalidPrefix);
    }
    let mut k: usize = 0;
    while k < m
        invariant
            m == full@.len(),
            n == t@.len(),
            full@ == code_prefix(),
            t@ == trim(code@),
            m <= n,
            k <= m,
            t@.take(k as int) == full@.take(k as int),
        decreases m - k,
    {
        if t[k] != full[k] {
            assert(t@.take(m as int)[k as int] == t@[k as int]);
            assert(t@.take(m as int) != full@);
            return Err(RegistrationError::InvalidPrefix);
        }
        assert(t@.take(k + 1) == t@.take(k as int).push(t@[k as int]));
        assert(full@.take(k + 1) == full@.take(k as int).push(full@[k as int]));
        k = k + 1;
    }
    assert(full@.take(m as int) == full@);
    let mut payload: Vec<char> = Vec::new();
    let mut j = m;
    while j < n
        invariant
            n == t@.len(),
            m <= j <= n,
            payload@ == t@.subrange(m as int, j as int),
        decreases n - j,
    {
        payload.push(t[j]);
        assert(t@.subrange(m as int, j + 1) == t@.subrange(m as int, j as int).push(t@[j as int]));
        j = j + 1;
    }
    assert(t@.subrange(m as int, n as int) == t@.skip(m as int));
    let payload_text = string_from_chars(&payload);
    match decode_base64_url(payload_text.as_str()) {
        None => Err(RegistrationError::InvalidEncoding),
        Some(body) => verify_payload(body),
    }
}

// ---------------------------------------------------------------------------
// Laws
// ---------------------------------------------------------------------------

/// A hexadecimal digit is read back as the value it was written for.
proof fn lemma_hex_digit_value(d: nat)
    requires
        d < 16,
    ensures
        hex_value(hex_digit(d)) == Some(d as u8),
        (hex_digit(d) as u32) < 128,
{
}

/// Writing a byte in front of others writes its two digits in front.
proof fn lemma_hex_text_prepend(b: u8, rest: Seq<u8>)
    ensures
        hex_text(seq![b] + rest) == seq![hex_digit((b / 16) as nat), hex_digit((b % 16) as nat)]
            + hex_text(rest),
    decreases rest.len(),
{
    if rest.len() == 0 {
        let w = seq![b] + rest;
        assert(w.drop_last() =~= Seq::<u8>::empty());
        assert(w.last() == b);
        assert(hex_text(w.drop_last()) == Seq::<char>::empty());
        assert(hex_text(rest) == Seq::<char>::empty());
    } else {
        let whole = seq![b] + rest;
        assert(whole.drop_last() == seq![b] + rest.drop_last());
        assert(whole.last() == rest.last());
        lemma_hex_text_prepend(b, rest.drop_last());
    }
}

/// The text of `bytes` is twice as long and made of ASCII hex digits.
proof fn lemma_hex_text_digits(bytes: Seq<u8>)
    ensures
        hex_text(bytes).len() == 2 * bytes.len(),
        forall|i: int| 0 <= i < hex_text(bytes).len() ==> (#[trigger] hex_text(bytes)[i] as u32) < 128,
    decreases bytes.len(),
{
    if bytes.len() > 0 {
        lemma_hex_text_digits(bytes.drop_last());
        lemma_hex_digit_value((bytes.last() / 16) as nat);
        lemma_hex_digit_value((bytes.last() % 16) as nat);
        let h = hex_text(bytes);
        let front = hex_text(bytes.drop_last());
        assert forall|i: int| 0 <= i < h.len() implies (#[trigger] h[i] as u32) < 128 by {
            if i < front.len() {
                assert(h[i] == front[i]);
            }
        }
    }
}

/// Reading back the lowercase hexadecimal text of any bytes (as
/// `bytes_to_hex` writes it) gives the same bytes: `decode_hex` undoes it.
pub proof fn lemma_hex_roundtrip(bytes: Seq<u8>)
    ensures
        hex_decoded(hex_text(bytes)) == Ok::<Seq<u8>, RegistrationError>(bytes),
{
    lemma_hex_text_digits(bytes);
    lemma_ascii_encoding(hex_text(bytes));
    lemma_hex_pairs_roundtrip(bytes);
}

proof fn lemma_hex_pairs_roundtrip(bytes: Seq<u8>)
    ensures
        hex_pairs(hex_text(bytes)) == Ok::<Seq<u8>, RegistrationError>(bytes),
    decreases bytes.len(),
{
    if bytes.len() == 0 {
        assert(bytes == Seq::<u8>::empty());
    } else {
        let b = bytes[0];
        let rest = bytes.drop_first();
        assert(bytes == seq![b] + rest);
        lemma_hex_text_prepend(b, rest);
        let s = hex_text(bytes);
        lemma_hex_digit_value((b / 16) as nat);
        lemma_hex_digit_value((b % 16) as nat);
        assert(s[0] == hex_digit((b / 16) as nat));
        assert(s[1] == hex_digit((b % 16) as nat));
        assert(s.skip(2) == hex_text(rest));
        lemma_hex_pairs_roundtrip(rest);
        assert((((b / 16) as u8) * 16 + ((b % 16) as u8)) as u8 == b);
        assert(hex_pairs(s) == Ok::<Seq<u8>, RegistrationError>(seq![b] + rest));
    }
}

/// A text with no `|` before the first `|` it is joined to splits there.
proof fn lemma_split_at_bar(name: Seq<char>, rest: Seq<char>)
    requires
        !name.contains('|'),
    ensures
        name_part(name + seq!['|'] + rest) == name,
        signature_part(name + seq!['|'] + rest) == rest,
    decreases name.len(),
{
    let text = name + seq!['|'] + rest;
    if name.len() == 0 {
        assert(text == seq!['|'] + rest);
        assert(text.drop_first() == rest);
    } else {
        assert(name[0] != '|') by {
            assert(name.contains(name[0]));
        }
        let tail = name.drop_first();
        assert(!tail.contains('|')) by {
            if tail.contains('|') {
                let j = choose|j: int| 0 <= j < tail.len() && tail[j] == '|';
                assert(name[j + 1] == '|');
            }
        }
        assert(text.drop_first() == tail + seq!['|'] + rest);
        lemma_split_at_bar(tail, rest);
        assert(seq![name[0]] + tail == name);
    }
}

/// A registration body made of a name with no `|`, a `|` and the
/// signature of the name as sanitizing leaves it, in lowercase
/// hexadecimal, is accepted and registers the sanitized name.
pub proof fn lemma_signed_body_accepted(name: Seq<char>, clean: Seq<char>, signature: Seq<u8>)
    requires
        sanitized(name) == Ok::<Seq<char>, RegistrationError>(clean),
        !name.contains('|'),
        signature == expected_proof(clean),
        signature.len() == 12,
    ensures
        payload_verdict(encode_utf8(name + seq!['|'] + hex_text(signature))) == Ok::<
            Seq<char>,
            RegistrationError,
        >(clean),
{
    let sig = hex_text(signature);
    let text = name + seq!['|'] + sig;
    broadcast use encode_utf8_valid_utf8, encode_utf8_decode_utf8;

    assert(valid_utf8(encode_utf8(text)));
    assert(decode_utf8(encode_utf8(text)) == text);
    lemma_split_at_bar(name, sig);
    lemma_hex_text_digits(signature);
    lemma_ascii_encoding(sig);
    lemma_hex_roundtrip(signature);
}

/// A registration code whose Base64 text decodes to a signed body (as in
/// `lemma_signed_body_accepted`) is accepted and registers the sanitized
/// name.
pub proof fn lemma_signed_code_accepted(
    code: Seq<char>,
    name: Seq<char>,
    clean: Seq<char>,
    signature: Seq<u8>,
)
    requires
        code_prefix().len() <= trim(code).len(),
        trim(code).take(code_prefix().len() as int) == code_prefix(),
        base64_url_decoded(trim(code).skip(code_prefix().len() as int)) == Some(
            encode_utf8(name + seq!['|'] + hex_text(signature)),
        ),
        sanitized(name) == Ok::<Seq<char>, RegistrationError>(clean),
        !name.contains('|'),
        signature == expected_proof(clean),
        signature.len() == 12,
    ensures
        code_verdict(code) == Ok::<Seq<char>, RegistrationError>(clean),
{
    lemma_signed_body_accepted(name, clean, signature);
}

/// A registration code is accepted exactly when its body is: once the
/// prefix is found and the Base64 text decodes, the verdict is the body's.
pub proof fn lemma_code_follows_body(code: Seq<char>, body: Seq<u8>)
    requires
        code_prefix().len() <= trim(code).len(),
        trim(code).take(code_prefix().len() as int) == code_prefix(),
        base64_url_decoded(trim(code).skip(code_prefix().len() as int)) == Some(body),
    ensures
        code_verdict(code) == payload_verdict(body),
{
}

} // verus!
