use gsltctrl::service::{GameServersService, HttpMethod};

#[test]
fn new_keeps_the_token_and_base_address() {
    let s = GameServersService::new("SECRET-KEY");
    assert_eq!(s.apitoken, "SECRET-KEY");
    assert_eq!(s.baseurl, "http://api.steampowered.com/IGameServersService/");
}

#[test]
fn list_request_is_a_keyed_get() {
    let s = GameServersService::new("K");
    let r = s.get_server_list_request();
    assert_eq!(
        r.url,
        "http://api.steampowered.com/IGameServersService//GetAccountList/v1"
    );
    assert!(matches!(r.method, HttpMethod::Get));
    assert_eq!(r.query.len(), 1);
    assert_eq!(r.query[0].0, "key");
    assert_eq!(r.query[0].1, "K");
}

#[test]
fn create_request_carries_the_encoded_body() {
    let s = GameServersService::new("K");
    let r = s.create_server_request(730, "test-server");
    assert_eq!(
        r.url,
        "http://api.steampowered.com/IGameServersService//CreateAccount/v1"
    );
    assert!(matches!(r.method, HttpMethod::Post));
    assert_eq!(r.query.len(), 2);
    assert_eq!(r.query[0].0, "key");
    assert_eq!(r.query[0].1, "K");
    assert_eq!(r.query[1].0, "input_json");
    assert_eq!(r.query[1].1, "{\"appid\":730,\"memo\":\"test-server\"}");
}

#[test]
fn reset_request_carries_the_encoded_body() {
    let s = GameServersService::new("K");
    let r = s.reset_token_request(900000000000000001);
    assert_eq!(
        r.url,
        "http://api.steampowered.com/IGameServersService//ResetLoginToken/v1"
    );
    assert!(matches!(r.method, HttpMethod::Post));
    assert_eq!(r.query.len(), 2);
    assert_eq!(r.query[1].0, "input_json");
    assert_eq!(r.query[1].1, "{\"steamid\":900000000000000001}");
}
