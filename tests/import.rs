use base64::engine::general_purpose;
use base64::Engine;
use pdf_import::bridge::{encode_file_contents, encoded_text_length};
use pdf_import::encoding::encode_base64;

fn import(bytes: &[u8]) -> String {
    match encode_file_contents(Ok(bytes.to_vec())) {
        Ok(text) => text,
        Err(message) => panic!("unexpected failure: {}", message),
    }
}

#[test]
fn rfc_vectors() {
    assert_eq!(encode_base64(b""), "");
    assert_eq!(encode_base64(b"f"), "Zg==");
    assert_eq!(encode_base64(b"fo"), "Zm8=");
    assert_eq!(encode_base64(b"foo"), "Zm9v");
    assert_eq!(encode_base64(b"foob"), "Zm9vYg==");
    assert_eq!(encode_base64(b"fooba"), "Zm9vYmE=");
    assert_eq!(encode_base64(b"foobar"), "Zm9vYmFy");
}

#[test]
fn alphabet_edges() {
    assert_eq!(encode_base64(&[0xfb, 0xff, 0xbf]), "+/+/");
    assert_eq!(encode_base64(&[0x00, 0x00, 0x00]), "AAAA");
    assert_eq!(encode_base64(&[0xff]), "/w==");
    assert_eq!(import(b"%PDF-1.7\n"), "JVBERi0xLjcK");
}

#[test]
fn round_trip_every_short_length() {
    for len in 0..40usize {
        let bytes: Vec<u8> = (0..len).map(|i| (i * 37 + 11) as u8).collect();
        let text = import(&bytes);
        assert_eq!(text.len(), 4 * ((len + 2) / 3));
        let back = general_purpose::STANDARD.decode(&text).unwrap();
        assert_eq!(back, bytes);
    }
}

#[test]
fn round_trip_all_byte_values() {
    let bytes: Vec<u8> = (0..=255u8).collect();
    let text = import(&bytes);
    assert!(text
        .chars()
        .all(|c| c.is_ascii_alphanumeric() || c == '+' || c == '/' || c == '='));
    assert_eq!(general_purpose::STANDARD.decode(&text).unwrap(), bytes);
}

#[test]
fn repeated_imports_agree() {
    let bytes: Vec<u8> = b"same content, twice".to_vec();
    let first = encode_file_contents(Ok(bytes.clone()));
    let second = encode_file_contents(Ok(bytes.clone()));
    assert_eq!(first, second);
    let other = encode_file_contents(Ok(b"same content, twicf".to_vec()));
    assert_ne!(first, other);
}

#[test]
fn missing_file_fails_with_its_message() {
    let message = String::from("No such file or directory (os error 2)");
    let reply = encode_file_contents(Err(message.clone()));
    assert_eq!(reply, Err(message));
}

#[test]
fn directory_fails_with_its_message() {
    let message = String::from("Is a directory (os error 21)");
    let reply = encode_file_contents(Err(message.clone()));
    assert!(reply.is_err());
    assert_eq!(reply, Err(message));
}

#[test]
fn empty_file_gives_empty_text() {
    assert_eq!(encode_file_contents(Ok(Vec::new())), Ok(String::new()));
}

#[test]
fn large_file_round_trips() {
    let len: usize = 5 * 1024 * 1024 + 2;
    let bytes: Vec<u8> = (0..len).map(|i| (i % 251) as u8 ^ (i >> 8) as u8).collect();
    let text = import(&bytes);
    assert_eq!(text.len(), 4 * ((len + 2) / 3));
    assert!(text.ends_with("=="));
    let back = general_purpose::STANDARD.decode(&text).unwrap();
    assert_eq!(back.len(), len);
    assert_eq!(back, bytes);
}

#[test]
fn text_length() {
    assert_eq!(encoded_text_length(0), Some(0));
    assert_eq!(encoded_text_length(1), Some(4));
    assert_eq!(encoded_text_length(3), Some(4));
    assert_eq!(encoded_text_length(4), Some(8));
    assert_eq!(encoded_text_length(5 * 1024 * 1024 + 1), Some(6990508));
    assert_eq!(encoded_text_length(usize::MAX), None);
    assert_eq!(encoded_text_length(usize::MAX / 4 * 3), Some(usize::MAX / 4 * 4));
    assert_eq!(encoded_text_length(usize::MAX / 4 * 3 + 1), None);
}
