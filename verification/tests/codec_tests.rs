use gsltctrl::codec::{
    decode_account_list, decode_create_payload, decode_create_response, decode_reset_payload,
    decode_reset_response, format_create_json, format_reset_json,
};
use gsltctrl::model::ApiError;

#[test]
fn create_body_is_written_exactly() {
    assert_eq!(
        format_create_json(730, "test-server"),
        "{\"appid\":730,\"memo\":\"test-server\"}"
    );
}

#[test]
fn reset_body_is_written_exactly() {
    assert_eq!(
        format_reset_json(900000000000000001),
        "{\"steamid\":900000000000000001}"
    );
}

#[test]
fn create_body_escapes_the_memo() {
    assert_eq!(
        format_create_json(1, "a\"b\\c\nd"),
        "{\"appid\":1,\"memo\":\"a\\\"b\\\\c\\nd\"}"
    );
    assert_eq!(
        format_create_json(1, "x\u{1}y"),
        "{\"appid\":1,\"memo\":\"x\\u0001y\"}"
    );
}

#[test]
fn create_payload_round_trips() {
    let body = format_create_json(730, "test-server");
    let back = decode_create_payload(&body).unwrap();
    assert_eq!(back.appid, 730);
    assert_eq!(back.memo, "test-server");

    let nasty = "a\"b\\c\nd\te\u{1}f\u{8}g\u{c}h\r/";
    let body = format_create_json(u32::MAX, nasty);
    let back = decode_create_payload(&body).unwrap();
    assert_eq!(back.appid, u32::MAX);
    assert_eq!(back.memo, nasty);
}

#[test]
fn reset_payload_round_trips() {
    let body = format_reset_json(900000000000000001);
    let back = decode_reset_payload(&body).unwrap();
    assert_eq!(back.steamid, 900000000000000001);
    let body = format_reset_json(0);
    assert_eq!(decode_reset_payload(&body).unwrap().steamid, 0);
}

#[test]
fn create_payload_accepts_field_reordering_and_spacing() {
    let back = decode_create_payload(" { \"memo\" : \"m\" , \"appid\" : 7 } ").unwrap();
    assert_eq!(back.appid, 7);
    assert_eq!(back.memo, "m");
    assert!(decode_create_payload("{\"appid\":7}").is_none());
    assert!(decode_create_payload("{\"appid\":7,\"appid\":8,\"memo\":\"m\"}").is_none());
}

#[test]
fn account_list_decodes_a_full_response() {
    let body = "{\"response\":{\"servers\":[{\"steamid\":\"900000000000000001\",\
\"appid\":730,\"login_token\":\"ABC123\",\"memo\":\"test-server\",\"is_deleted\":false,\
\"is_expired\":false,\"rt_last_logon\":0}],\"is_banned\":false,\"expires\":1700000000,\
\"actor\":\"76561197960287930\",\"last_action_time\":0}}";
    let resp = decode_account_list(body).unwrap();
    assert_eq!(resp.servers.len(), 1);
    let s = &resp.servers[0];
    assert_eq!(s.steamid, "900000000000000001");
    assert_eq!(s.appid, 730);
    assert_eq!(s.login_token, "ABC123");
    assert_eq!(s.memo, "test-server");
    assert!(!s.is_deleted);
    assert!(!s.is_expired);
    assert_eq!(s.rt_last_logon, 0);
    assert!(!resp.is_banned);
    assert_eq!(resp.expires, 1700000000);
    assert_eq!(resp.actor, "76561197960287930");
    assert_eq!(resp.last_action_time, 0);
}

#[test]
fn account_list_with_empty_servers_decodes() {
    let body = "{\"response\":{\"servers\":[],\"is_banned\":false,\"expires\":-1,\
\"actor\":\"\",\"last_action_time\":-5}}";
    let resp = decode_account_list(body).unwrap();
    assert!(resp.servers.is_empty());
    assert_eq!(resp.expires, -1);
    assert_eq!(resp.last_action_time, -5);
}

#[test]
fn absent_memo_defaults_to_empty_string() {
    let body = "{\"response\":{\"servers\":[{\"steamid\":\"1\",\"appid\":440,\
\"login_token\":\"T\",\"is_deleted\":false,\"is_expired\":true,\"rt_last_logon\":7}],\
\"is_banned\":false,\"expires\":0,\"actor\":\"a\",\"last_action_time\":0}}";
    let resp = decode_account_list(body).unwrap();
    assert_eq!(resp.servers[0].memo, "");
    assert!(resp.servers[0].is_expired);
}

#[test]
fn unknown_fields_are_ignored() {
    let body = "{\"extra\":[1,2.5,null,{\"x\":true}],\"response\":{\"servers\":[{\
\"steamid\":\"1\",\"appid\":1,\"login_token\":\"T\",\"memo\":\"m\",\"is_deleted\":false,\
\"is_expired\":false,\"rt_last_logon\":1,\"future_field\":-3.5e-2}],\"is_banned\":false,\
\"expires\":0,\"actor\":\"a\",\"last_action_time\":0,\"note\":\"n\"}}";
    let resp = decode_account_list(body).unwrap();
    assert_eq!(resp.servers[0].memo, "m");
}

#[test]
fn string_escapes_decode() {
    let body = "{\"response\":{\"servers\":[{\"steamid\":\"1\",\"appid\":1,\
\"login_token\":\"T\",\"memo\":\"a\\nb\\u0041\\\"\\\\\\/\\ud834\\udd1e\",\
\"is_deleted\":false,\"is_expired\":false,\"rt_last_logon\":1}],\"is_banned\":false,\
\"expires\":0,\"actor\":\"a\",\"last_action_time\":0}}";
    let resp = decode_account_list(body).unwrap();
    assert_eq!(resp.servers[0].memo, "a\nbA\"\\/\u{1D11E}");
}

#[test]
fn malformed_bodies_are_decode_errors() {
    assert!(matches!(decode_account_list(""), Err(ApiError::JsonDecode)));
    assert!(matches!(
        decode_account_list("<html>Forbidden</html>"),
        Err(ApiError::JsonDecode)
    ));
    assert!(matches!(decode_account_list("{}"), Err(ApiError::JsonDecode)));
    assert!(matches!(
        decode_account_list("{\"response\":{}}"),
        Err(ApiError::JsonDecode)
    ));
    // a required record field is missing
    let body = "{\"response\":{\"servers\":[{\"appid\":1,\"login_token\":\"T\",\
\"is_deleted\":false,\"is_expired\":false,\"rt_last_logon\":1}],\"is_banned\":false,\
\"expires\":0,\"actor\":\"a\",\"last_action_time\":0}}";
    assert!(matches!(decode_account_list(body), Err(ApiError::JsonDecode)));
    // trailing garbage after the document
    let body = "{\"response\":{\"servers\":[],\"is_banned\":false,\"expires\":0,\
\"actor\":\"a\",\"last_action_time\":0}} x";
    assert!(matches!(decode_account_list(body), Err(ApiError::JsonDecode)));
    // lone surrogate in a string
    let body = "{\"response\":{\"servers\":[],\"is_banned\":false,\"expires\":0,\
\"actor\":\"\\ud834\",\"last_action_time\":0}}";
    assert!(matches!(decode_account_list(body), Err(ApiError::JsonDecode)));
}

#[test]
fn create_response_decodes() {
    let body = "{\"response\":{\"steamid\":\"900000000000000002\",\"login_token\":\"NEW1\"}}";
    let resp = decode_create_response(body).unwrap();
    assert_eq!(resp.steamid, "900000000000000002");
    assert_eq!(resp.login_token, "NEW1");
    assert!(decode_create_response("{\"response\":{\"steamid\":\"1\"}}").is_err());
}

#[test]
fn reset_response_decodes() {
    let body = "{\"response\":{\"login_token\":\"NEW2\"}}";
    let resp = decode_reset_response(body).unwrap();
    assert_eq!(resp.login_token, "NEW2");
    assert!(decode_reset_response("{\"response\":{}}").is_err());
}

#[test]
fn encoder_output_is_json_serde_agrees() {
    let body = format_create_json(730, "test-server");
    let v: serde_json::Value = serde_json::from_str(&body).unwrap();
    assert_eq!(v["appid"], serde_json::Value::from(730u32));
    assert_eq!(v["memo"], serde_json::Value::from("test-server"));

    let mut m = serde_json::Map::new();
    m.insert("appid".to_string(), serde_json::Value::from(730u32));
    m.insert("memo".to_string(), serde_json::Value::from("test-server"));
    let expected = serde_json::to_string(&serde_json::Value::Object(m)).unwrap();
    assert_eq!(body, expected);

    let nasty = "a\"b\\c\nd\u{1}e";
    let body = format_create_json(7, nasty);
    let v: serde_json::Value = serde_json::from_str(&body).unwrap();
    assert_eq!(v["memo"], serde_json::Value::from(nasty));
}
