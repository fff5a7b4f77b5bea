use file_share::access::{
    check_token_request, decrypt_content, decrypt_with_key, encrypt_upload, encrypt_upload_with,
    secret_key_of, shared_secret, share_query, share_query_with, TokenRejection,
};

const EXPIRES: i64 = 4_102_444_800;
const KEY_ID: &str = "AbCdEfGhIj0123456789";

fn query_value<'a>(link: &'a str, key: &str) -> Option<&'a str> {
    let query = link.split_once('?').map(|(_, q)| q).unwrap_or(link);
    query.split('&').find_map(|pair| pair.strip_prefix(key).and_then(|rest| rest.strip_prefix('=')))
}

#[test]
fn upload_round_trip() {
    let key = [7u8; 32];
    let content = b"hello, shared world".to_vec();
    let (name, cipher, link) =
        encrypt_upload_with(Some("a.txt"), &content, KEY_ID, &key, EXPIRES).unwrap().unwrap();
    assert_eq!(name, "a.txt.encrypted");
    assert_eq!(cipher.len(), content.len() + 28);
    assert_ne!(&cipher[..content.len()], &content[..]);
    assert!(link.starts_with("/file/decrypt?"));
    assert_eq!(query_value(&link, "access_key_id"), Some(KEY_ID));
    assert!(query_value(&link, "security_token").is_some_and(|t| !t.is_empty()));
    assert_eq!(query_value(&link, "file_name"), Some("a.txt.encrypted"));
    let (plain_name, plain) = decrypt_with_key(Some(&name), &cipher, &key).unwrap();
    assert_eq!(plain_name.as_deref(), Some("a.txt"));
    assert_eq!(plain, content);
}

#[test]
fn upload_keeps_encrypted_suffix() {
    let (name, _, _) =
        encrypt_upload_with(Some("b.encrypted"), b"x", KEY_ID, &[1u8; 32], EXPIRES).unwrap().unwrap();
    assert_eq!(name, "b.encrypted");
}

#[test]
fn upload_without_name_gives_no_link() {
    assert!(encrypt_upload_with(None, b"abc", KEY_ID, &[1u8; 32], EXPIRES).unwrap().is_none());
}

#[test]
fn decrypt_refuses_short_or_foreign_data() {
    assert!(decrypt_with_key(Some("a"), &[0u8; 12], &[1u8; 32]).is_err());
    let (_, cipher, _) =
        encrypt_upload_with(Some("c"), b"secret", KEY_ID, &[2u8; 32], EXPIRES).unwrap().unwrap();
    assert!(decrypt_with_key(Some("c.encrypted"), &cipher, &[3u8; 32]).is_err());
    let (name, plain) = decrypt_with_key(None, &cipher, &[2u8; 32]).unwrap();
    assert!(name.is_none());
    assert_eq!(plain, b"secret");
}

#[test]
fn share_queries() {
    let q = share_query_with("2024-01-01/17/a.txt", KEY_ID, &[5u8; 32], EXPIRES).unwrap();
    assert_eq!(query_value(&q, "access_key_id"), Some(KEY_ID));
    let token = query_value(&q, "security_token").unwrap();
    assert!(!token.is_empty());
    assert!(query_value(&q, "file_name").is_some());
    let again = share_query_with("2024-01-01/17/a.txt", KEY_ID, &[5u8; 32], EXPIRES).unwrap();
    assert_ne!(query_value(&again, "security_token"), Some(token));
}

#[test]
fn token_checks() {
    assert_eq!(check_token_request(true, Some("a")), Err(TokenRejection::Expired));
    assert_eq!(check_token_request(true, None), Err(TokenRejection::Expired));
    assert_eq!(check_token_request(false, None), Err(TokenRejection::MissingFileName));
    assert_eq!(check_token_request(false, Some("a/b.txt")), Ok("a/b.txt".to_string()));
}

#[test]
fn shared_secret_sources() {
    let checksum = "0123456789abcdef0123456789abcdef";
    let from_checksum = shared_secret(Some(checksum), Some("s"), None, None).unwrap();
    assert_eq!(from_checksum.len(), 64);
    assert_eq!(shared_secret(Some(checksum), None, None, Some("app")).unwrap(), from_checksum);
    let from_secret = shared_secret(Some("short"), Some("s"), None, None).unwrap();
    assert_eq!(shared_secret(None, Some("s"), None, None).unwrap(), from_secret);
    assert_ne!(from_secret, from_checksum);
    let other_info = shared_secret(None, Some("s"), Some("OTHER"), None).unwrap();
    assert_ne!(other_info, from_secret);
    let dev = shared_secret(None, None, None, Some("app")).unwrap();
    assert_ne!(dev, from_secret);
    assert!(shared_secret(None, None, Some("x"), None).is_none());
    assert!(shared_secret(Some("short"), None, None, None).is_none());
}

#[test]
fn secret_keys_per_id() {
    let secret = shared_secret(None, Some("s"), None, None).unwrap();
    let a = secret_key_of("AAAAAAAAAAAAAAAAAAAA", &secret);
    assert_eq!(a.len(), 32);
    assert_eq!(secret_key_of("AAAAAAAAAAAAAAAAAAAA", &secret), a);
    assert_ne!(secret_key_of("BBBBBBBBBBBBBBBBBBBB", &secret), a);
    assert_ne!(secret_key_of("AAAAAAAAAAAAAAAAAAAA", b"other"), a);
}

#[test]
fn upload_then_decrypt_with_the_links_id() {
    let secret = shared_secret(None, Some("s"), None, None).unwrap();
    let content = b"round trip".to_vec();
    let (name, cipher, link) =
        encrypt_upload(Some("r.bin"), &content, &secret, EXPIRES).unwrap().unwrap();
    assert_eq!(name, "r.bin.encrypted");
    let key_id = query_value(&link, "access_key_id").unwrap();
    assert_eq!(key_id.len(), 20);
    assert!(key_id.chars().all(|c| c.is_ascii_alphanumeric()));
    let (plain_name, plain) = decrypt_content(Some(&name), &cipher, key_id, &secret).unwrap();
    assert_eq!(plain_name.as_deref(), Some("r.bin"));
    assert_eq!(plain, content);
    assert!(decrypt_content(Some(&name), &cipher, key_id, b"wrong").is_err());
}

#[test]
fn share_query_fresh_ids() {
    let secret = shared_secret(None, Some("s"), None, None).unwrap();
    let q = share_query("d/1/f.txt", &secret, EXPIRES).unwrap();
    let again = share_query("d/1/f.txt", &secret, EXPIRES).unwrap();
    assert_ne!(query_value(&q, "access_key_id"), query_value(&again, "access_key_id"));
    assert_eq!(query_value(&q, "access_key_id").map(|k| k.len()), Some(20));
}

fn percent_decode(text: &str) -> String {
    let bytes = text.as_bytes();
    let mut out = Vec::new();
    let mut i = 0;
    while i < bytes.len() {
        if bytes[i] == b'%' && i + 2 < bytes.len() {
            let hex = std::str::from_utf8(&bytes[i + 1..i + 3]).unwrap();
            out.push(u8::from_str_radix(hex, 16).unwrap());
            i += 3;
        } else {
            out.push(bytes[i]);
            i += 1;
        }
    }
    String::from_utf8(out).unwrap()
}

#[test]
fn token_opens_to_id_and_expiry() {
    let key = [9u8; 32];
    let q = share_query_with("f", KEY_ID, &key, EXPIRES).unwrap();
    let token = percent_decode(query_value(&q, "security_token").unwrap());
    let sealed = zino_core::encoding::base64::decode(&token).unwrap();
    let (_, payload) = decrypt_with_key(None, &sealed, &key).unwrap();
    assert_eq!(payload, format!("{KEY_ID}:{EXPIRES}").into_bytes());
    let q0 = share_query_with("f", KEY_ID, &key, i64::MAX).unwrap();
    let token0 = percent_decode(query_value(&q0, "security_token").unwrap());
    let sealed0 = zino_core::encoding::base64::decode(&token0).unwrap();
    let (_, payload0) = decrypt_with_key(None, &sealed0, &key).unwrap();
    assert_eq!(payload0, format!("{KEY_ID}:0").into_bytes());
}

#[test]
fn upload_and_share_succeed_on_edge_inputs() {
    assert!(encrypt_upload_with(Some(""), b"", "", &[], 0).unwrap().is_some());
    assert!(encrypt_upload_with(None, b"", "", &[7u8; 80], i64::MIN).unwrap().is_none());
    assert!(share_query_with("", "", &[], i64::MIN).is_ok());
    assert!(share_query("", b"", i64::MAX).is_ok());
    assert!(encrypt_upload(Some("e"), &[], b"", 0).unwrap().is_some());
}
