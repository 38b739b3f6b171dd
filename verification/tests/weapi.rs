use base64::Engine;
use netease_cloud_music_linux::json::{Json, JsonNumber};
use netease_cloud_music_linux::weapi::{
    check_weapi_response, weapi_aes_base64, weapi_body, weapi_body_with_secret, weapi_error_text,
    weapi_params_json, weapi_rsa_encrypt, WeapiError, WEAPI_IV, WEAPI_PRESET_KEY,
};

fn decrypt(key: &[u8], text_b64: &str) -> String {
    let data = base64::engine::general_purpose::STANDARD.decode(text_b64).unwrap();
    let plain = openssl::symm::decrypt(
        openssl::symm::Cipher::aes_128_cbc(),
        key,
        Some(WEAPI_IV.as_bytes()),
        &data,
    )
    .unwrap();
    String::from_utf8(plain).unwrap()
}

fn percent_decode(s: &str) -> String {
    let b = s.as_bytes();
    let mut out = Vec::new();
    let mut i = 0;
    while i < b.len() {
        if b[i] == b'%' {
            let hex = std::str::from_utf8(&b[i + 1..i + 3]).unwrap();
            out.push(u8::from_str_radix(hex, 16).unwrap());
            i += 3;
        } else {
            out.push(b[i]);
            i += 1;
        }
    }
    String::from_utf8(out).unwrap()
}

fn pairs(v: &[(&str, &str)]) -> Vec<(String, String)> {
    v.iter().map(|(a, b)| (a.to_string(), b.to_string())).collect()
}

#[test]
fn aes_pass_decrypts_back() {
    let key = WEAPI_PRESET_KEY.as_bytes();
    let text = "{\"ids\":\"[1,2]\",\"csrf_token\":\"\"}";
    let encrypted = weapi_aes_base64(text, key).unwrap();
    assert_ne!(encrypted, text);
    let cipher_len = (text.len() / 16 + 1) * 16;
    assert_eq!(encrypted.len(), (cipher_len + 2) / 3 * 4);
    assert_eq!(decrypt(key, &encrypted), text);
}

#[test]
fn aes_of_empty_text_is_one_block() {
    let encrypted = weapi_aes_base64("", b"abcdefghijklmnop").unwrap();
    // one 16-byte block: 24 base64 characters
    assert_eq!(encrypted.len(), 24);
    assert_eq!(decrypt(b"abcdefghijklmnop", &encrypted), "");
}

#[test]
fn rsa_part_is_fixed_length_hex_and_deterministic() {
    let a = weapi_rsa_encrypt("ponmlkjihgfedcba").unwrap();
    let b = weapi_rsa_encrypt("ponmlkjihgfedcba").unwrap();
    let c = weapi_rsa_encrypt("abcdefghijklmnop").unwrap();
    assert_eq!(a, b);
    assert_ne!(a, c);
    assert_eq!(a.len(), 256);
    assert!(a.chars().all(|ch| ch.is_ascii_digit() || ('a'..='f').contains(&ch)));
    assert!(!a.contains("706f6e6d6c6b6a69"));
}

#[test]
fn body_with_secret_decrypts_to_the_text() {
    // secret bytes 0..16 pick the key "abcdefghijklmnop"
    let secret: Vec<u8> = (0u8..16).collect();
    let text = "{\"s\":\"hello\",\"csrf_token\":\"abc\"}";
    let body = weapi_body_with_secret(text, &secret).unwrap();
    assert!(body.starts_with("params="));
    let (params_part, enc_part) = body["params=".len()..].split_once("&encSecKey=").unwrap();
    assert!(!params_part.contains('+') && !params_part.contains('/') && !params_part.contains('='));
    let params = percent_decode(params_part);
    let first = decrypt(b"abcdefghijklmnop", &params);
    assert_eq!(decrypt(WEAPI_PRESET_KEY.as_bytes(), &first), text);
    // every pair of the query ends with '&'
    assert_eq!(enc_part, weapi_rsa_encrypt("ponmlkjihgfedcba").unwrap() + "&");
}

#[test]
fn secret_bytes_wrap_around_the_alphabet() {
    // 62 + 0 picks 'a', 255 % 62 == 7 picks 'h'
    let mut secret = vec![62u8; 15];
    secret.push(255);
    let body = weapi_body_with_secret("{}", &secret).unwrap();
    let (params_part, enc_part) = body["params=".len()..].split_once("&encSecKey=").unwrap();
    let key = "aaaaaaaaaaaaaaah";
    let first = decrypt(key.as_bytes(), &percent_decode(params_part));
    assert_eq!(decrypt(WEAPI_PRESET_KEY.as_bytes(), &first), "{}");
    assert_eq!(enc_part, weapi_rsa_encrypt("haaaaaaaaaaaaaaa").unwrap() + "&");
}

#[test]
fn random_body_has_both_parts() {
    let body = weapi_body("{}").unwrap();
    assert!(body.starts_with("params="));
    assert!(body.contains("&encSecKey="));
    let (_, enc_part) = body.split_once("&encSecKey=").unwrap();
    assert_eq!(enc_part.len(), 257);
    assert!(enc_part.ends_with('&'));
}

#[test]
fn params_json_sets_csrf_token() {
    let p = pairs(&[("id", "1"), ("text", "a\"b\\c\nd")]);
    assert_eq!(
        weapi_params_json(&p, "tok"),
        "{\"id\":\"1\",\"text\":\"a\\\"b\\\\c\\nd\",\"csrf_token\":\"tok\"}"
    );
    let p = pairs(&[("csrf_token", "old"), ("x", "\u{1}")]);
    assert_eq!(weapi_params_json(&p, ""), "{\"csrf_token\":\"\",\"x\":\"\\u0001\"}");
    assert_eq!(weapi_params_json(&Vec::new(), "t"), "{\"csrf_token\":\"t\"}");
}

fn obj(v: Vec<(&str, Json)>) -> Json {
    Json::Object(v.into_iter().map(|(k, x)| (k.to_string(), x)).collect())
}

#[test]
fn response_code_200_or_missing_is_accepted() {
    assert_eq!(check_weapi_response(&obj(vec![("code", Json::Number(JsonNumber::from_u64(200)))])), Ok(()));
    assert_eq!(check_weapi_response(&obj(vec![("data", Json::Null)])), Ok(()));
    assert_eq!(check_weapi_response(&obj(vec![("code", Json::Str("200".to_string()))])), Ok(()));
    assert_eq!(check_weapi_response(&Json::Null), Ok(()));
}

#[test]
fn other_codes_are_refused_with_their_message() {
    let r = check_weapi_response(&obj(vec![
        ("code", Json::Number(JsonNumber::from_u64(301))),
        ("message", Json::Str("need login".to_string())),
        ("msg", Json::Str("other".to_string())),
    ]));
    assert_eq!(r, Err(WeapiError::Api { code: 301, message: "need login".to_string() }));
    let r = check_weapi_response(&obj(vec![
        ("code", Json::Str("400".to_string())),
        ("message", Json::Str(String::new())),
        ("msg", Json::Str("bad".to_string())),
    ]));
    assert_eq!(r, Err(WeapiError::Api { code: 400, message: "bad".to_string() }));
    // a code that does not read as an unsigned number counts as 200
    let r = check_weapi_response(&obj(vec![("code", Json::Number(JsonNumber::from_i64(-1)))]));
    assert_eq!(r, Ok(()));
}

#[test]
fn error_texts() {
    let e = WeapiError::Api { code: 301, message: "need login".to_string() };
    assert_eq!(weapi_error_text(&e), "网易云接口返回 code 301: need login");
    assert_eq!(weapi_error_text(&WeapiError::Crypto), "加密请求失败");
}
