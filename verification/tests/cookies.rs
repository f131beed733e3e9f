use nucleus_http::cookies::{payload_of, payload_text, Cookie, CookieConfig, CookieError};
use nucleus_http::json::{read_json, write_string, Json};
use nucleus_http::http::Header;
use nucleus_http::utils::{base64_decode, base64_encode, try_base64_encode};

#[test]
fn set_cookie_header() {
    let config = CookieConfig::default();
    let cookie = config.new_cookie("id", "hi");
    let header = cookie.into_header().unwrap();
    let decoded_coookie = config.cookies_from_header(header).unwrap();
    assert_eq!(&cookie, decoded_coookie.get("id").unwrap());
}

#[test]
fn cookie_builder() {
    let config = CookieConfig::default();
    let cookie = config.new_cookie("id", "hi");
    let header = cookie.into_header().unwrap();
    let decoded_cookie = config.cookies_from_header(header).unwrap();
    assert_eq!(&cookie, decoded_cookie.get("id").unwrap());
}

#[test]
fn cookie_delete() {
    let config = CookieConfig::default();
    let mut cookie = config.new_cookie("id", "hi");
    let header = cookie.into_header().unwrap();
    let decoded_cookie = config.cookies_from_header(header).unwrap();
    assert_eq!(&cookie, decoded_cookie.get("id").unwrap());

    cookie.delete();
    let header = cookie.into_header().unwrap();
    let decoded_cookie = config.cookies_from_header(header).unwrap();
    assert_eq!(&cookie, decoded_cookie.get("id").unwrap());
}

#[test]
fn other_cookies() {
    let config = CookieConfig::default();
    let cookie = config.new_cookie("id", "hi");
    let header = cookie.into_header().unwrap();
    let decoded_cookie = config.cookies_from_header(header.clone()).unwrap();
    assert_eq!(&cookie, decoded_cookie.get("id").expect("no cookie"));

    let cookie_str = format!("bob=; robert=bob; this_is=c2VjcmV0; {}", header.value);
    let cookies = config
        .cookies_from_str(&cookie_str)
        .expect("Error Parsing String into Cookies");
    assert_eq!("hi", cookies.get("id").unwrap().value());
    assert_eq!(1, cookies.len());
}

#[test]
fn signed_header_has_the_settings_in_order() {
    let config = CookieConfig::with_secret("key".to_string());
    let cookie = config.new_cookie("id", "hi");
    let header = cookie.into_header().unwrap();
    assert_eq!("set-cookie", header.key);
    assert!(header.value.starts_with("id="));
    assert!(header.value.ends_with("; Secure; HttpOnly; SameSite=Strict; Path=/"));
    let deleted = config.delete_cookie("id").into_header().unwrap();
    assert!(deleted
        .value
        .ends_with("; Secure; HttpOnly; SameSite=Strict; Path=/; Expires=Thu, 01 Jan 1970 00:00:00 GMT"));
}

#[test]
fn signature_is_hmac_sha256_of_the_value() {
    let config = CookieConfig::with_secret("key".to_string());
    let cookie = config.new_cookie(
        "id",
        "The quick brown fox jumps over the lazy dog",
    );
    let payload = cookie.sign();
    let expected: Vec<u8> = vec![
        0xf7, 0xbc, 0x83, 0xf4, 0x30, 0x53, 0x84, 0x24, 0xb1, 0x32, 0x98, 0xe6, 0xaa, 0x6f, 0xb1,
        0x43, 0xef, 0x4d, 0x59, 0xa1, 0x49, 0x46, 0x17, 0x59, 0x97, 0x47, 0x9d, 0xbc, 0x2d, 0x1a,
        0x3c, 0xd8,
    ];
    assert_eq!(expected.as_slice(), payload.signature());
    assert_eq!("The quick brown fox jumps over the lazy dog", payload.value());
    assert_eq!(Ok(()), config.is_valid_signature(&payload));
}

#[test]
fn cookie_signed_with_another_secret_is_refused() {
    let ours = CookieConfig::with_secret("ours".to_string());
    let theirs = CookieConfig::with_secret("theirs".to_string());
    let forged = theirs.new_cookie("id", "admin");
    assert_eq!(
        Err(CookieError::InvalidSignature),
        ours.is_valid_signature(&forged.sign())
    );
    let header = forged.into_header().unwrap();
    let cookies = ours.cookies_from_header(header).unwrap();
    assert_eq!(0, cookies.len());
    assert!(cookies.get("id").is_none());
}

#[test]
fn cookies_are_read_from_set_cookie_headers_only() {
    let config = CookieConfig::default();
    let header = Header::new("Cookie", "id=hi");
    assert_eq!(
        Some(CookieError::InvalidHeaderName),
        config.cookies_from_header(header).err()
    );
}

#[test]
fn attributes_change_the_settings_of_the_cookies_read() {
    let mut config = CookieConfig::with_secret("key".to_string());
    config.set_secure(false);
    config.set_http_only(false);
    config.set_same_site(None);
    config.set_path(None);
    let header = config.new_cookie("id", "hi").into_header().unwrap();
    let text = format!(
        "{}; Secure; HttpOnly; SameSite=Lax; Domain=example.org; Path=/a; Expires=never",
        header.value
    );
    let cookies = config.cookies_from_str(&text).unwrap();
    let read = cookies.get("id").unwrap().config();
    assert!(read.secure());
    assert!(read.http_only());
    assert_eq!(Some(&"Lax".to_string()), read.same_site());
    assert_eq!(Some(&"example.org".to_string()), read.domain());
    assert_eq!(Some(&"/a".to_string()), read.path());
    assert_eq!(Some(&"never".to_string()), read.expiration());
    assert!(!config.secure());
    assert_eq!(None, config.domain());
}

#[test]
fn new_with_config_copies_the_settings() {
    let config = CookieConfig::with_secret("key".to_string());
    let cookie = Cookie::new_with_config(&config, "a", "b");
    assert_eq!("a", cookie.name());
    assert_eq!("b", cookie.value());
    assert_eq!(&config, cookie.config());
}

#[test]
fn base64_is_standard_without_padding() {
    assert_eq!("aGk", base64_encode(b"hi".to_vec()));
    assert_eq!(Some("c2VjcmV0".to_string()), try_base64_encode(b"secret".to_vec()));
    assert_eq!(Ok(b"secret".to_vec()), base64_decode("c2VjcmV0".to_string()));
    assert!(base64_decode("aGk=".to_string()).is_err());
    assert!(base64_decode("***".to_string()).is_err());
}

const FOX: &str = "The quick brown fox jumps over the lazy dog";
const FOX_TAG: &str = "[247,188,131,244,48,83,132,36,177,50,152,230,170,111,177,67,239,77,89,161,73,70,23,89,151,71,157,188,45,26,60,216]";

fn cookie_of(json: &str) -> String {
    format!("id={}", base64_encode(json.as_bytes().to_vec()))
}

#[test]
fn payload_is_written_value_first() {
    assert_eq!("{\"value\":\"hi\",\"signature\":[]}", payload_text("hi", &[]));
    assert_eq!("{\"value\":\"\",\"signature\":[0]}", payload_text("", &[0]));
    assert_eq!(
        "{\"value\":\"a\\\"b\\\\c\\n\",\"signature\":[1,20,255]}",
        payload_text("a\"b\\c\n", &[1, 20, 255])
    );
    let config = CookieConfig::with_secret("key".to_string());
    let header = config.new_cookie("id", FOX).into_header().unwrap();
    let encoded = header.value.strip_prefix("id=").unwrap().split(';').next().unwrap();
    let json = String::from_utf8(base64_decode(encoded.to_string()).unwrap()).unwrap();
    assert_eq!(format!("{{\"value\":\"{}\",\"signature\":{}}}", FOX, FOX_TAG), json);
}

#[test]
fn payload_is_read_from_an_object_or_an_array() {
    let config = CookieConfig::with_secret("key".to_string());
    let value = |json: String| {
        config
            .cookies_from_str(&cookie_of(&json))
            .unwrap()
            .get("id")
            .map(|cookie| cookie.value().to_string())
    };
    let fox = Some(FOX.to_string());
    assert_eq!(fox, value(format!("{{\"value\":\"{}\",\"signature\":{}}}", FOX, FOX_TAG)));
    assert_eq!(
        fox,
        value(format!(" {{ \"more\": null, \"signature\": {}, \"value\": \"{}\" }} ", FOX_TAG, FOX))
    );
    assert_eq!(fox, value(format!("[\"{}\",{}]", FOX, FOX_TAG)));
    assert_eq!(None, value(format!("[\"{}\",{},1]", FOX, FOX_TAG)));
    assert_eq!(None, value(format!("[\"{}\"]", FOX)));
    assert_eq!(None, value(format!("{{\"value\":\"{}\"}}", FOX)));
    assert_eq!(None, value(format!("{{\"signature\":{}}}", FOX_TAG)));
    assert_eq!(None, value(format!("{{\"value\":[],\"signature\":{}}}", FOX_TAG)));
    assert_eq!(None, value(format!("{{\"value\":\"{}\",\"signature\":\"x\"}}", FOX)));
    assert_eq!(None, value(format!("\"{}\"", FOX)));
    assert_eq!(None, value("not json".to_string()));
    let forged = FOX_TAG.replace("[247,", "[246,");
    assert_eq!(None, value(format!("{{\"value\":\"{}\",\"signature\":{}}}", FOX, forged)));
}

#[test]
fn signature_is_an_array_of_bytes() {
    let pick = |text: &str| payload_of(&read_json(text).unwrap());
    assert_eq!(
        Some(("v".to_string(), vec![0u8, 255])),
        pick("{\"value\":\"v\",\"signature\":[0,255]}")
    );
    assert_eq!(Some(("v".to_string(), vec![])), pick("[\"v\",[]]"));
    assert_eq!(None, pick("{\"value\":\"v\",\"signature\":[256]}"));
    assert_eq!(None, pick("{\"value\":\"v\",\"signature\":[-1]}"));
    assert_eq!(None, pick("{\"value\":\"v\",\"signature\":[1.0]}"));
    assert_eq!(None, pick("{\"value\":\"v\",\"signature\":[1,\"2\"]}"));
    assert_eq!(None, pick("{\"value\":\"v\",\"signature\":[[1]]}"));
    assert_eq!(None, pick("{\"value\":1,\"signature\":[1]}"));
    assert_eq!(None, pick("{\"Value\":\"v\",\"signature\":[1]}"));
    assert_eq!(None, pick("null"));
    assert_eq!(None, pick("true"));
    assert_eq!(None, pick("7"));
    assert_eq!(
        Some(("last".to_string(), vec![2u8])),
        pick("{\"value\":\"first\",\"signature\":[1],\"value\":\"last\",\"signature\":[2]}")
    );
}

#[test]
fn json_values() {
    assert!(matches!(read_json("null"), Some(Json::Null)));
    assert!(matches!(read_json(" false "), Some(Json::Bool(false))));
    assert!(matches!(read_json("18446744073709551615"), Some(Json::Number(Some(u64::MAX)))));
    assert!(matches!(read_json("18446744073709551616"), Some(Json::Number(None))));
    assert!(matches!(read_json("-0"), Some(Json::Number(None))));
    assert!(matches!(read_json("0.5"), Some(Json::Number(None))));
    assert!(matches!(read_json("\"a\\u0041\""), Some(Json::Text(text)) if text == "aA"));
    match read_json("[1,[true],{\"b\":null,\"a\":\"x\"}]") {
        Some(Json::Array(items)) => {
            assert_eq!(3, items.len());
            assert!(matches!(&items[0], Json::Number(Some(1))));
            assert!(matches!(&items[1], Json::Array(inner) if inner.len() == 1));
            match &items[2] {
                Json::Object(members) => {
                    assert_eq!(2, members.len());
                    assert_eq!("a", members[0].0);
                    assert!(matches!(&members[0].1, Json::Text(text) if text == "x"));
                    assert_eq!("b", members[1].0);
                    assert!(matches!(&members[1].1, Json::Null));
                }
                other => panic!("no object: {:?}", other),
            }
        }
        other => panic!("no array: {:?}", other),
    }
    assert!(read_json("").is_none());
    assert!(read_json("{").is_none());
    assert!(read_json("[1,]").is_none());
    assert!(read_json("1 2").is_none());
    assert_eq!("\"\"", write_string(""));
    assert_eq!("\"a\\tb\\u0001\u{e9}\"", write_string("a\tb\u{1}\u{e9}"));
}

#[test]
fn cookie_is_added_to_a_response() {
    let config = CookieConfig::with_secret("key".to_string());
    let cookie = config.new_cookie("flavor", "chocolate chip");
    let mut response = nucleus_http::response::Response::from("Heres a Cookie");
    assert!(response.add_cookie(&cookie));
    assert_eq!(1, response.headers().len());
    assert_eq!(cookie.into_header().unwrap(), response.headers()[0]);
    let read = config.cookies_from_header(response.headers()[0].clone()).unwrap();
    assert_eq!("chocolate chip", read.get("flavor").unwrap().value());
}
