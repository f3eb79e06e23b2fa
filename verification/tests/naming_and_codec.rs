use base64::Engine;
use osvoice_core::crypto::{encode_secret_file_contents, parse_secret_file_contents, CryptoError};
use osvoice_core::domain::capped_meeting_limit;
use osvoice_core::naming::{meeting_audio_file_name, sanitize_id};
use osvoice_core::rng::fresh_root_secret;

#[test]
fn secret_file_text_round_trips() {
    let secret = fresh_root_secret();
    let text = encode_secret_file_contents(&secret);
    assert_eq!(parse_secret_file_contents(&text).unwrap(), secret);
}

#[test]
fn secret_file_text_matches_plain_base64() {
    let text = encode_secret_file_contents(b"0123456789abcdef0123456789abcdef");
    assert_eq!(
        text,
        base64::engine::general_purpose::STANDARD.encode(b"0123456789abcdef0123456789abcdef")
    );
}

#[test]
fn secret_file_text_survives_surrounding_whitespace() {
    let secret = fresh_root_secret();
    let text = encode_secret_file_contents(&secret);
    let padded = format!("  \t{}\r\n", text);
    assert_eq!(parse_secret_file_contents(&padded).unwrap(), secret);
}

#[test]
fn secret_file_garbage_is_rejected() {
    let r = parse_secret_file_contents("this is not base64 at all");
    assert!(matches!(r, Err(CryptoError::Base64(_))));
}

#[test]
fn sanitize_keeps_safe_characters() {
    assert_eq!(sanitize_id("abc-123_XYZ"), "abc-123_XYZ");
    assert_eq!(sanitize_id("a b/c"), "abc");
    assert_eq!(sanitize_id("meeting 2024/05/01"), "meeting20240501");
}

#[test]
fn sanitize_falls_back_on_empty_result() {
    assert_eq!(sanitize_id(""), "meeting");
    assert_eq!(sanitize_id("!!! ???"), "meeting");
}

#[test]
fn audio_file_name_is_sanitized_wav() {
    assert_eq!(meeting_audio_file_name("standup 9:30"), "standup930.wav");
    assert_eq!(meeting_audio_file_name("///"), "meeting.wav");
}

#[test]
fn meeting_limit_is_capped() {
    assert_eq!(capped_meeting_limit(0), 0);
    assert_eq!(capped_meeting_limit(50), 50);
    assert_eq!(capped_meeting_limit(200), 200);
    assert_eq!(capped_meeting_limit(201), 200);
    assert_eq!(capped_meeting_limit(u32::MAX), 200);
}
