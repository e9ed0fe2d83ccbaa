use base64::Engine;
use code_hunt::cookie::{decode_cookie, get_cookie_recipie, CookieError};

fn header_for(text: &str) -> Vec<u8> {
    let mut h = b"gift: ".to_vec();
    h.extend_from_slice(
        base64::engine::general_purpose::STANDARD
            .encode(text.as_bytes())
            .as_bytes(),
    );
    h
}

#[test]
fn decodes_a_well_formed_header() {
    // Six prefix bytes, then standard base64: "cGVwcGVybWludA==" decodes to
    // "peppermint", so the decoder must not hand the payload back unchanged.
    let h = b"gift: cGVwcGVybWludA==".to_vec();
    assert_eq!(decode_cookie(&h).unwrap(), "peppermint");
    assert_eq!(get_cookie_recipie(Some(&h)).unwrap(), "peppermint");
}

#[test]
fn decodes_round_trip_payloads() {
    for text in ["candy", "", "flour and sugar", "snow\nmagic"] {
        let h = header_for(text);
        assert_eq!(decode_cookie(&h).unwrap(), text);
    }
}

#[test]
fn missing_header_answers_error_text() {
    assert_eq!(get_cookie_recipie(None).unwrap(), "error");
}

#[test]
fn short_header_is_rejected() {
    assert_eq!(decode_cookie(b"abc"), Err(CookieError::TooShort));
    assert_eq!(get_cookie_recipie(Some(&b"gift:".to_vec())), Err(CookieError::TooShort));
}

#[test]
fn malformed_base64_is_rejected() {
    assert_eq!(decode_cookie(b"gift: !!!!"), Err(CookieError::BadBase64));
}

#[test]
fn non_utf8_payload_is_rejected() {
    let mut h = b"gift: ".to_vec();
    h.extend_from_slice(
        base64::engine::general_purpose::STANDARD
            .encode([0xffu8, 0xfe, 0xff])
            .as_bytes(),
    );
    assert_eq!(decode_cookie(&h), Err(CookieError::BadUtf8));
}
