//! Access keys, security tokens and the encryption of stored files.
//!
//! A shared or uploaded file is reached through a link whose query names a
//! fresh random access key id, a security token for it, and the file. The
//! shared secret is derived from the configuration; the secret key of an access
//! key id is an HMAC of the id under that shared secret; security tokens and
//! uploaded files are sealed with that key.

use vstd::prelude::*;
use vstd::string::*;
use zino_auth::{AccessKeyId, SecretAccessKey, SecurityToken};
use hmac::Hmac;
use vstd::utf8::encode_utf8;
use zino_core::{datetime::DateTime, extension::JsonObjectExt};
use zino_storage::NamedFile;
use crate::share::decrypt_url;
use crate::text::int_decimal;

verus! {

/// The bytes that encryption adds: the 16-byte AES-GCM-SIV tag and the 12-byte nonce.
pub const ENCRYPTION_OVERHEAD: usize = 28;

/// The longest plaintext AES-GCM-SIV encrypts: 2^36 bytes.
pub const MAX_PLAINTEXT_LEN: u64 = 0x10_0000_0000;

/// The longest access key id, in characters, that a security token is sure to
/// be made for: its text, with the colon and the expiry, stays within
/// `MAX_PLAINTEXT_LEN` bytes.
pub const MAX_TOKEN_ID_CHARS: u64 = 0x3_FFFF_FFF0;

/// The suffix that encryption adds to a file name.
pub open spec fn encrypted_suffix() -> Seq<char> {
    ".encrypted"@
}

/// Whether `s` ends with `".encrypted"`.
pub open spec fn ends_encrypted(s: Seq<char>) -> bool {
    s.len() >= 10 && s.subrange(s.len() - 10, s.len() as int) == encrypted_suffix()
}

/// The name of a file once encrypted: `".encrypted"` appended, unless already there.
pub open spec fn encrypted_name(s: Seq<char>) -> Seq<char> {
    if ends_encrypted(s) {
        s
    } else {
        s + encrypted_suffix()
    }
}

/// The name of a file once decrypted: a trailing `".encrypted"` removed.
pub open spec fn decrypted_name(s: Seq<char>) -> Seq<char> {
    if ends_encrypted(s) {
        s.subrange(0, s.len() - 10)
    } else {
        s
    }
}

/// An ASCII letter or digit.
pub open spec fn is_alphanumeric(c: char) -> bool {
    let n = c as int;
    (48 <= n <= 57) || (65 <= n <= 90) || (97 <= n <= 122)
}

/// A text that can serve as an access key id: 20 ASCII letters and digits.
pub open spec fn is_access_key_id(s: Seq<char>) -> bool {
    s.len() == 20 && forall|i: int| 0 <= i < s.len() ==> is_alphanumeric(#[trigger] s[i])
}

/// The query string zino-core writes for a map holding the (key, value)
/// pairs; the map keeps its keys in ascending order, so the text does not depend
/// on the order the pairs are given in.
pub uninterp spec fn query_text(pairs: Seq<(Seq<char>, Seq<char>)>) -> Seq<char>;

/// The query of a file link: the access key id, its security token, and the file name.
pub open spec fn link_query(access_key_id: Seq<char>, token: Seq<char>, file_name: Seq<char>) -> Seq<
    char,
> {
    query_text(
        seq![
            ("access_key_id"@, access_key_id),
            ("security_token"@, token),
            ("file_name"@, file_name),
        ],
    )
}

/// What zino-core's `crypto::decrypt` gives for `data` under `key`: the
/// plaintext, or `None` where it refuses the data (AES-GCM-SIV with the key
/// padded or cut to 32 bytes, the 12-byte nonce at the end of the data). It
/// stands for that function in both zino-core 0.45 (which zino-auth's security
/// tokens use) and zino-core 0.46 (which zino-storage's file encryption uses):
/// the two have the same code for `encrypt`, `decrypt` and the key padding.
pub uninterp spec fn aes_open(key: Seq<u8>, data: Seq<u8>) -> Option<Seq<u8>>;

/// What zino-core's `encoding::base64::decode` gives for a text: the bytes, or
/// `None` where it is not base64 (standard alphabet, no padding).
pub uninterp spec fn base64_decode(text: Seq<char>) -> Option<Seq<u8>>;

/// The SHA-256 digest of a byte string (zino-core's `crypto::digest`).
pub uninterp spec fn sha256_of(data: Seq<u8>) -> Seq<u8>;

/// The 64-byte key zino-core's `crypto::derive_key` derives (HKDF-HMAC-SHA256)
/// from an info text and a pseudorandom key.
pub uninterp spec fn hkdf_key(info: Seq<char>, prk: Seq<u8>) -> Seq<u8>;

/// The secret key of an access key id under a shared secret: the HMAC-SHA256 of
/// the id's text keyed with the secret (zino-auth's `SecretAccessKey::with_key`).
pub uninterp spec fn access_key_hmac(secret: Seq<u8>, access_key_id: Seq<char>) -> Seq<u8>;

/// The earliest and latest whole seconds since the epoch a date-time can hold
/// (the start of the year -262143 and the end of the year 262142).
pub const MIN_TIMESTAMP_SECS: i64 = -8_334_601_315_200;

pub const MAX_TIMESTAMP_SECS: i64 = 8_210_266_876_799;

/// The text a security token seals: `{access key id}:{expiry in seconds}`, the
/// expiry read back as the epoch (0) where a date-time cannot hold it.
pub open spec fn token_payload(access_key_id: Seq<char>, expires_secs: int) -> Seq<char> {
    access_key_id + ":"@ + int_decimal(
        if MIN_TIMESTAMP_SECS <= expires_secs <= MAX_TIMESTAMP_SECS {
            expires_secs
        } else {
            0
        },
    )
}

/// `token` is a security token for `access_key_id` expiring at `expires_secs`,
/// sealed with `key`: base64-decoded and opened with the key it gives the
/// token's payload.
pub open spec fn token_seals(token: Seq<char>, key: Seq<u8>, access_key_id: Seq<char>, expires_secs: int) -> bool {
    &&& base64_decode(token) is Some
    &&& aes_open(key, base64_decode(token)->0) == Some(
        encode_utf8(token_payload(access_key_id, expires_secs)),
    )
}

/// A fresh random access key id (zino-auth's `AccessKeyId::new`).
/// Trusted: it is 20 characters drawn from rand's `Alphanumeric`, that is ASCII
/// letters and digits; which ones is left open.
#[verifier::external_body]
fn new_access_key_id() -> (id: String)
    ensures
        is_access_key_id(id@),
{
    String::from(AccessKeyId::new())
}

/// The SHA-256 digest of `data` (zino-core's `crypto::digest`).
/// Trusted: the digest of exactly `data`, 32 bytes long.
#[verifier::external_body]
fn sha256_digest(data: &[u8]) -> (res: Vec<u8>)
    ensures
        res@ == sha256_of(data@),
        res@.len() == 32,
{
    zino_core::crypto::digest(data).to_vec()
}

/// Derives a 64-byte key from an info text and a pseudorandom key (zino-core's
/// `crypto::derive_key`, HKDF-HMAC-SHA256).
/// Trusted: the result depends on the two arguments alone and is 64 bytes long;
/// a pseudorandom key shorter than 32 bytes would make it panic, so it is not admitted.
#[verifier::external_body]
fn hkdf_derive(info: &str, prk: &[u8]) -> (res: Vec<u8>)
    requires
        prk@.len() >= 32,
    ensures
        res@ == hkdf_key(info@, prk@),
        res@.len() == 64,
{
    zino_core::crypto::derive_key(info, prk).to_vec()
}

/// The secret key of an access key id under the shared secret (zino-auth's
/// `SecretAccessKey::with_key` with HMAC over zino-core's digest, SHA-256).
/// Trusted: the HMAC of the id's text keyed with the secret, 32 bytes long; an
/// HMAC takes a key of any length.
#[verifier::external_body]
fn secret_access_key(access_key_id: &str, secret: &[u8]) -> (key: Vec<u8>)
    ensures
        key@ == access_key_hmac(secret@, access_key_id@),
        key@.len() == 32,
{
    SecretAccessKey::with_key::<Hmac<zino_core::crypto::Digest>>(
        &AccessKeyId::from(access_key_id),
        secret,
    ).into()
}

/// A security token for an access key id that expires at `expires_secs`
/// (seconds since the epoch), sealed with `key` (zino-auth's
/// `SecurityToken::try_new`, written as text).
/// Trusted: the token is the base64 text of zino-core's `crypto::encrypt` of
/// `{id}:{expiry}` under the key, the expiry as a date-time reads it back; so
/// decoding it and opening it with the key gives that text. The key is padded
/// or cut to 32 bytes and the nonce has its 12 bytes, so the encryption fails
/// only on a text over 2^36 bytes, which an id of at most `MAX_TOKEN_ID_CHARS`
/// characters (4 bytes each at most) with the expiry (at most 15 bytes with
/// its colon) stays under. The token itself carries a random nonce and is
/// left open.
#[verifier::external_body]
fn security_token(access_key_id: &str, expires_secs: i64, key: &[u8]) -> (res: Result<
    String,
    String,
>)
    ensures
        access_key_id@.len() <= MAX_TOKEN_ID_CHARS ==> res is Ok,
        res matches Ok(t) ==> base64_decode(t@) is Some && aes_open(key@, base64_decode(t@)->0)
            == Some(encode_utf8(token_payload(access_key_id@, expires_secs as int))),
{
    match SecurityToken::try_new(
        AccessKeyId::from(access_key_id),
        DateTime::from_timestamp(expires_secs),
        key,
    ) {
        Ok(token) => Ok(token.to_string()),
        Err(err) => Err(err.to_string()),
    }
}

/// Encrypts a file's content with `key` (zino-storage's `NamedFile::encrypt_with`,
/// on a file with the given name and content, which calls zino-core's `crypto::encrypt`).
/// Trusted: on success the data opens with the same key to the content (an
/// AEAD gives back what it sealed), is 28 bytes longer (the 16-byte tag and the
/// 12-byte nonce), and a name gets `".encrypted"` appended unless it already
/// ends so. The key is padded or cut to 32 bytes and the nonce has its 12
/// bytes, so the encryption fails only on content over `MAX_PLAINTEXT_LEN`
/// bytes (AES-GCM-SIV's limit). The nonce is random, so the data is left open
/// beyond that.
#[verifier::external_body]
fn encrypt_file(file_name: Option<&str>, content: &[u8], key: &[u8]) -> (res: Result<
    (Option<String>, Vec<u8>),
    String,
>)
    ensures
        content@.len() <= MAX_PLAINTEXT_LEN ==> res is Ok,
        res matches Ok((name, data)) ==> data@.len() == content@.len() + ENCRYPTION_OVERHEAD
            && aes_open(key@, data@) == Some(content@) && match file_name {
            Some(n) => name matches Some(m) && m@ == encrypted_name(n@),
            None => name is None,
        },
{
    let mut file = NamedFile::default();
    if let Some(name) = file_name {
        file.set_file_name(name);
    }
    file.set_bytes(content.to_vec());
    match file.encrypt_with(key) {
        Ok(()) => Ok((file.file_name().map(|n| n.to_owned()), file.bytes().to_vec())),
        Err(err) => Err(err.to_string()),
    }
}

/// Decrypts a file's content with `key` (zino-storage's `NamedFile::decrypt_with`,
/// on a file with the given name and content, which calls zino-core's `crypto::decrypt`).
/// Trusted: it succeeds exactly where `crypto::decrypt` does, with its
/// plaintext; content of at most 12 bytes is refused; on success the tag and the
/// nonce are gone (28 bytes fewer) and a trailing `".encrypted"` is removed from
/// the name.
#[verifier::external_body]
fn decrypt_file(file_name: Option<&str>, data: &[u8], key: &[u8]) -> (res: Result<
    (Option<String>, Vec<u8>),
    String,
>)
    ensures
        res is Ok <==> aes_open(key@, data@) is Some,
        data@.len() <= 12 ==> res is Err,
        res matches Ok((name, plain)) ==> plain@ == aes_open(key@, data@)->0 && plain@.len()
            + ENCRYPTION_OVERHEAD == data@.len() && match file_name {
            Some(n) => name matches Some(m) && m@ == decrypted_name(n@),
            None => name is None,
        },
{
    let mut file = NamedFile::default();
    if let Some(name) = file_name {
        file.set_file_name(name);
    }
    file.set_bytes(data.to_vec());
    match file.decrypt_with(key) {
        Ok(()) => Ok((file.file_name().map(|n| n.to_owned()), file.bytes().to_vec())),
        Err(err) => Err(err.to_string()),
    }
}

/// The query string zino-core writes for a map filled with the (key, value)
/// pairs (zino-core's `to_query_string` on a map filled with `upsert`).
/// Trusted: the text depends on the pairs alone.
#[verifier::external_body]
fn query_string(pairs: &Vec<(String, String)>) -> (res: String)
    ensures
        res@ == query_text(pairs@.map_values(|p: (String, String)| (p.0@, p.1@))),
{
    let mut map = zino_core::Map::new();
    for (key, value) in pairs {
        map.upsert(key.as_str(), value.as_str());
    }
    map.to_query_string()
}

fn link_query_string(access_key_id: String, token: String, file_name: String) -> (res: String)
    ensures
        res@ == link_query(access_key_id@, token@, file_name@),
{
    let mut pairs: Vec<(String, String)> = Vec::new();
    pairs.push((String::from_str("access_key_id"), access_key_id));
    pairs.push((String::from_str("security_token"), token));
    pairs.push((String::from_str("file_name"), file_name));
    let ghost v = pairs@;
    let res = query_string(&pairs);
    assert(v.map_values(|p: (String, String)| (p.0@, p.1@)) =~= seq![
        ("access_key_id"@, access_key_id@),
        ("security_token"@, token@),
        ("file_name"@, file_name@),
    ]);
    res
}

/// The bytes of an optional text.
pub open spec fn opt_bytes(s: Option<&str>) -> Option<Seq<u8>> {
    match s {
        Some(t) => Some(t.spec_bytes()),
        None => None,
    }
}

/// The 32-byte checksum the shared secret is derived from: a configured
/// checksum of exactly 32 bytes; else the SHA-256 of the configured secret;
/// else, in development, the SHA-256 of the application's name; else none.
pub open spec fn config_checksum(
    checksum: Option<Seq<u8>>,
    secret: Option<Seq<u8>>,
    dev_app_name: Option<Seq<u8>>,
) -> Option<Seq<u8>> {
    if checksum is Some && checksum->0.len() == 32 {
        checksum
    } else if secret is Some {
        Some(sha256_of(secret->0))
    } else if dev_app_name is Some {
        Some(sha256_of(dev_app_name->0))
    } else {
        None
    }
}

/// The info text of the key derivation: the configured one, or `"ZINO:ACCESS-KEY"`.
pub open spec fn key_info(info: Option<Seq<char>>) -> Seq<char> {
    match info {
        Some(i) => i,
        None => "ZINO:ACCESS-KEY"@,
    }
}

fn checksum_of(checksum: Option<&str>, secret: Option<&str>, dev_app_name: Option<&str>) -> (res:
    Option<Vec<u8>>)
    ensures
        res matches Some(c) ==> c@.len() == 32 && config_checksum(
            opt_bytes(checksum),
            opt_bytes(secret),
            opt_bytes(dev_app_name),
        ) == Some(c@),
        res is None ==> config_checksum(
            opt_bytes(checksum),
            opt_bytes(secret),
            opt_bytes(dev_app_name),
        ) is None,
{
    if let Some(c) = checksum {
        let bytes = c.as_bytes_vec();
        if bytes.len() == 32 {
            return Some(bytes);
        }
    }
    if let Some(s) = secret {
        return Some(sha256_digest(s.as_bytes()));
    }
    if let Some(name) = dev_app_name {
        return Some(sha256_digest(name.as_bytes()));
    }
    None
}

/// The shared secret that access keys are derived under, from the
/// configuration's `checksum`, `secret` and `info` entries and, in development
/// only, the application's name: HKDF of the checksum (see `config_checksum`)
/// with the info text. `None` where the configuration gives no checksum and no
/// secret outside development. zino-auth's `SecretAccessKey::new` takes the
/// same key from the process-wide configuration it loads itself, and panics
/// where that gives none; here the entries are arguments, and the digest and
/// the key derivation are zino-core's own, called through `sha256_digest` and
/// `hkdf_derive`.
pub fn shared_secret(
    checksum: Option<&str>,
    secret: Option<&str>,
    info: Option<&str>,
    dev_app_name: Option<&str>,
) -> (res: Option<Vec<u8>>)
    ensures
        res is None <==> config_checksum(opt_bytes(checksum), opt_bytes(secret), opt_bytes(dev_app_name))
            is None,
        res matches Some(k) ==> k@ == hkdf_key(
            key_info(
                match info {
                    Some(i) => Some(i@),
                    None => None,
                },
            ),
            config_checksum(opt_bytes(checksum), opt_bytes(secret), opt_bytes(dev_app_name))->0,
        ),
{
    match checksum_of(checksum, secret, dev_app_name) {
        Some(c) => {
            let key = match info {
                Some(i) => hkdf_derive(i, c.as_slice()),
                None => hkdf_derive("ZINO:ACCESS-KEY", c.as_slice()),
            };
            Some(key)
        },
        None => None,
    }
}

/// The secret key of an access key id under the shared secret.
pub fn secret_key_of(access_key_id: &str, secret: &[u8]) -> (key: Vec<u8>)
    ensures
        key@ == access_key_hmac(secret@, access_key_id@),
        key@.len() == 32,
{
    secret_access_key(access_key_id, secret)
}

/// An upload stored as `stored` under `key` for `access_key_id`, expiring at
/// `expires_secs`, with link `link`: the stored content opens with the key to
/// `content`, and the link is `/file/decrypt?` followed by the query of the id,
/// a token for it sealed with the key, and the stored name.
pub open spec fn upload_sealed(
    content: Seq<u8>,
    key: Seq<u8>,
    access_key_id: Seq<char>,
    expires_secs: int,
    stored_name: Seq<char>,
    stored: Seq<u8>,
    link: Seq<char>,
) -> bool {
    &&& stored.len() == content.len() + ENCRYPTION_OVERHEAD
    &&& aes_open(key, stored) == Some(content)
    &&& exists|token: Seq<char>|
        token_seals(token, key, access_key_id, expires_secs) && link == "/file/decrypt?"@
            + #[trigger] link_query(access_key_id, token, stored_name)
}

/// Encrypts an upload under a given access key id and its secret key, and
/// makes its link. A security token for the id is made that expires at
/// `expires_secs`, and the content encrypted with the key; either fails only
/// on a text too long for AES-GCM-SIV (see `MAX_PLAINTEXT_LEN` and
/// `MAX_TOKEN_ID_CHARS`), and its failure is returned. A file without a name gives no link (`None`); a named file gives
/// its stored name (the encrypted name), the encrypted content, and the link
/// `/file/decrypt?` followed by the query of key id, token and stored name.
pub fn encrypt_upload_with(
    file_name: Option<&str>,
    content: &[u8],
    access_key_id: &str,
    key: &[u8],
    expires_secs: i64,
) -> (res: Result<Option<(String, Vec<u8>, String)>, String>)
    ensures
        content@.len() <= MAX_PLAINTEXT_LEN && access_key_id@.len() <= MAX_TOKEN_ID_CHARS ==> res is Ok,
        file_name is None ==> (res matches Ok(v) ==> v is None),
        file_name matches Some(n) ==> (res matches Ok(v) ==> v matches Some(t) && t.0@
            == encrypted_name(n@) && upload_sealed(
            content@,
            key@,
            access_key_id@,
            expires_secs as int,
            t.0@,
            t.1@,
            t.2@,
        )),
{
    let token = match security_token(access_key_id, expires_secs, key) {
        Ok(token) => token,
        Err(err) => return Err(err),
    };
    let (name, data) = match encrypt_file(file_name, content, key) {
        Ok(pair) => pair,
        Err(err) => return Err(err),
    };
    match name {
        Some(stored) => {
            let ghost tok = token@;
            let query = link_query_string(access_key_id.to_owned(), token, stored.clone());
            let link = decrypt_url(query.as_str());
            assert(token_seals(tok, key@, access_key_id@, expires_secs as int));
            assert(link@ == "/file/decrypt?"@ + link_query(access_key_id@, tok, stored@));
            Ok(Some((stored, data, link)))
        },
        None => Ok(None),
    }
}

/// Encrypts an upload and makes its link: a fresh access key id is made, its
/// secret key derived under the shared secret, and the upload encrypted under
/// them as `encrypt_upload_with` does.
pub fn encrypt_upload(
    file_name: Option<&str>,
    content: &[u8],
    secret: &[u8],
    expires_secs: i64,
) -> (res: Result<Option<(String, Vec<u8>, String)>, String>)
    ensures
        content@.len() <= MAX_PLAINTEXT_LEN ==> res is Ok,
        file_name is None ==> (res matches Ok(v) ==> v is None),
        file_name matches Some(n) ==> (res matches Ok(v) ==> v matches Some(t) && t.0@
            == encrypted_name(n@) && exists|id: Seq<char>|
            is_access_key_id(id) && #[trigger] upload_sealed(
                content@,
                access_key_hmac(secret@, id),
                id,
                expires_secs as int,
                t.0@,
                t.1@,
                t.2@,
            )),
{
    let access_key_id = new_access_key_id();
    let key = secret_access_key(access_key_id.as_str(), secret);
    let res = encrypt_upload_with(
        file_name,
        content,
        access_key_id.as_str(),
        key.as_slice(),
        expires_secs,
    );
    proof {
        if let Ok(Some(ref t)) = res {
            assert(upload_sealed(
                content@,
                access_key_hmac(secret@, access_key_id@),
                access_key_id@,
                expires_secs as int,
                t.0@,
                t.1@,
                t.2@,
            ));
        }
    }
    res
}

/// The query of a download link for a shared file under a given access key id
/// and its secret key: the id, a security token for it sealed with the key that
/// expires at `expires_secs`, and the file name. The token is made for any id
/// of at most `MAX_TOKEN_ID_CHARS` characters; a failure to make it is returned.
pub fn share_query_with(file_name: &str, access_key_id: &str, key: &[u8], expires_secs: i64) -> (res:
    Result<String, String>)
    ensures
        access_key_id@.len() <= MAX_TOKEN_ID_CHARS ==> res is Ok,
        res matches Ok(q) ==> exists|token: Seq<char>|
            token_seals(token, key@, access_key_id@, expires_secs as int) && q@ == #[trigger] link_query(
                access_key_id@,
                token,
                file_name@,
            ),
{
    let token = match security_token(access_key_id, expires_secs, key) {
        Ok(token) => token,
        Err(err) => return Err(err),
    };
    let ghost tok = token@;
    let query = link_query_string(access_key_id.to_owned(), token, file_name.to_owned());
    assert(query@ == link_query(access_key_id@, tok, file_name@));
    Ok(query)
}

/// The query of a download link for a shared file: a fresh access key id, its
/// secret key derived under the shared secret, and the query as
/// `share_query_with` makes it.
pub fn share_query(file_name: &str, secret: &[u8], expires_secs: i64) -> (res: Result<String, String>)
    ensures
        res is Ok,
        res matches Ok(q) ==> exists|id: Seq<char>, token: Seq<char>|
            is_access_key_id(id) && token_seals(token, access_key_hmac(secret@, id), id, expires_secs as int)
                && q@ == #[trigger] link_query(id, token, file_name@),
{
    let access_key_id = new_access_key_id();
    let key = secret_access_key(access_key_id.as_str(), secret);
    let ghost id = access_key_id@;
    let res = share_query_with(file_name, access_key_id.as_str(), key.as_slice(), expires_secs);
    assert(is_access_key_id(id));
    res
}

/// Why a download or decryption request is refused before any file is read.
#[derive(PartialEq, Eq, Structural, Clone, Copy, Debug)]
pub enum TokenRejection {
    /// The security token has expired (the request is forbidden).
    Expired,
    /// The query names no file.
    MissingFileName,
}

/// The checks of a download or decryption request: an expired token is
/// refused first, then a query without a file name; otherwise the file name.
pub fn check_token_request(token_expired: bool, file_name: Option<&str>) -> (res: Result<
    String,
    TokenRejection,
>)
    ensures
        token_expired ==> res == Err::<String, TokenRejection>(TokenRejection::Expired),
        !token_expired && file_name is None ==> res == Err::<String, TokenRejection>(
            TokenRejection::MissingFileName,
        ),
        !token_expired && file_name is Some ==> (res matches Ok(n) && n@ == file_name->0@),
{
    if token_expired {
        return Err(TokenRejection::Expired);
    }
    match file_name {
        Some(name) => Ok(name.to_owned()),
        None => Err(TokenRejection::MissingFileName),
    }
}

/// Decrypts a stored file with a secret key: it succeeds exactly where the data
/// opens under the key, with the opened content, and the name loses its
/// `".encrypted"` suffix. Content of at most 12 bytes is refused.
pub fn decrypt_with_key(file_name: Option<&str>, data: &[u8], key: &[u8]) -> (res: Result<
    (Option<String>, Vec<u8>),
    String,
>)
    ensures
        res is Ok <==> aes_open(key@, data@) is Some,
        data@.len() <= 12 ==> res is Err,
        res matches Ok((name, plain)) ==> plain@ == aes_open(key@, data@)->0 && plain@.len()
            + ENCRYPTION_OVERHEAD == data@.len() && match file_name {
            Some(n) => name matches Some(m) && m@ == decrypted_name(n@),
            None => name is None,
        },
{
    decrypt_file(file_name, data, key)
}

/// Decrypts a stored file with the secret key of `access_key_id` under the
/// shared secret, as `decrypt_with_key` does.
pub fn decrypt_content(
    file_name: Option<&str>,
    data: &[u8],
    access_key_id: &str,
    secret: &[u8],
) -> (res: Result<(Option<String>, Vec<u8>), String>)
    ensures
        res is Ok <==> aes_open(access_key_hmac(secret@, access_key_id@), data@) is Some,
        data@.len() <= 12 ==> res is Err,
        res matches Ok((name, plain)) ==> plain@ == aes_open(
            access_key_hmac(secret@, access_key_id@),
            data@,
        )->0 && plain@.len() + ENCRYPTION_OVERHEAD == data@.len() && match file_name {
            Some(n) => name matches Some(m) && m@ == decrypted_name(n@),
            None => name is None,
        },
{
    let key = secret_access_key(access_key_id, secret);
    decrypt_with_key(file_name, data, key.as_slice())
}

/// Law: what an upload stores decrypts back to the uploaded content. Stored
/// content sealed for an access key id under the shared secret (what
/// `encrypt_upload` ensures) is content that `decrypt_content`, given that id
/// and secret, accepts, and it gives back exactly the uploaded bytes.
pub proof fn upload_round_trip(
    secret: Seq<u8>,
    access_key_id: Seq<char>,
    expires_secs: int,
    content: Seq<u8>,
    stored_name: Seq<char>,
    stored: Seq<u8>,
    link: Seq<char>,
)
    requires
        upload_sealed(
            content,
            access_key_hmac(secret, access_key_id),
            access_key_id,
            expires_secs,
            stored_name,
            stored,
            link,
        ),
    ensures
        aes_open(access_key_hmac(secret, access_key_id), stored) is Some,
        aes_open(access_key_hmac(secret, access_key_id), stored)->0 == content,
        stored.len() > 12,
{
}

} // verus!
