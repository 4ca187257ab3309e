//! Whole-run scenarios: the response bodies a remote would send, pushed
//! through decoding, classification and request preparation exactly as the
//! program wires them, with only the network itself absent.
use gsltctrl::codec::{decode_account_list, decode_create_response, decode_reset_response};
use gsltctrl::model::Action;
use gsltctrl::service::GameServersService;
use gsltctrl::workflow::plan_from_list;

#[test]
fn existing_live_token_is_printed_without_further_calls() {
    let list_body = "{\"response\":{\"servers\":[{\"steamid\":\"900000000000000001\",\
\"appid\":730,\"login_token\":\"ABC123\",\"memo\":\"test-server\",\"is_deleted\":false,\
\"is_expired\":false,\"rt_last_logon\":0}],\"is_banned\":false,\"expires\":0,\
\"actor\":\"a\",\"last_action_time\":0}}";
    let list = decode_account_list(list_body).unwrap();
    let action = plan_from_list(&list.servers, 730, "test-server").unwrap();
    match action {
        Action::UseToken(t) => assert_eq!(t, "ABC123"),
        _ => panic!("a live match must use the existing token"),
    }
}

#[test]
fn empty_list_leads_to_a_create_call_with_the_exact_body() {
    let list_body = "{\"response\":{\"servers\":[],\"is_banned\":false,\"expires\":0,\
\"actor\":\"a\",\"last_action_time\":0}}";
    let list = decode_account_list(list_body).unwrap();
    let action = plan_from_list(&list.servers, 730, "test-server").unwrap();
    assert!(matches!(action, Action::CallCreate));

    let service = GameServersService::new("K");
    let req = service.create_server_request(730, "test-server");
    assert_eq!(req.query[1].1, "{\"appid\":730,\"memo\":\"test-server\"}");

    let create_body = "{\"response\":{\"steamid\":\"900000000000000009\",\
\"login_token\":\"FRESH1\"}}";
    let resp = decode_create_response(create_body).unwrap();
    assert_eq!(resp.login_token, "FRESH1");
}

#[test]
fn expired_token_leads_to_a_reset_call_with_the_exact_body() {
    let list_body = "{\"response\":{\"servers\":[{\"steamid\":\"900000000000000001\",\
\"appid\":730,\"login_token\":\"STALE\",\"memo\":\"test-server\",\"is_deleted\":false,\
\"is_expired\":true,\"rt_last_logon\":0}],\"is_banned\":false,\"expires\":0,\
\"actor\":\"a\",\"last_action_time\":0}}";
    let list = decode_account_list(list_body).unwrap();
    let action = plan_from_list(&list.servers, 730, "test-server").unwrap();
    let steamid = match action {
        Action::CallReset(s) => s,
        _ => panic!("an expired match must reset, not create"),
    };
    assert_eq!(steamid, 900000000000000001);

    let service = GameServersService::new("K");
    let req = service.reset_token_request(steamid);
    assert_eq!(req.query[1].1, "{\"steamid\":900000000000000001}");

    let reset_body = "{\"response\":{\"login_token\":\"RENEWED\"}}";
    let resp = decode_reset_response(reset_body).unwrap();
    assert_eq!(resp.login_token, "RENEWED");
}
