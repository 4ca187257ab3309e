use gsltctrl::model::{Action, ApiError, GameServer, ParsingResult, exit_code};
use gsltctrl::text::parse_u64;
use gsltctrl::workflow::{decide, parse_server_list, plan_from_list};

fn record(steamid: &str, appid: u32, token: &str, memo: &str, expired: bool) -> GameServer {
    GameServer {
        steamid: steamid.to_string(),
        appid,
        login_token: token.to_string(),
        memo: memo.to_string(),
        is_deleted: false,
        is_expired: expired,
        rt_last_logon: 0,
    }
}

#[test]
fn live_match_returns_token_unchanged() {
    let servers = vec![record("900000000000000001", 730, "ABC123", "test-server", false)];
    let r = parse_server_list(&servers, 730, "test-server");
    assert!(matches!(r, ParsingResult::Found(ref t) if t == "ABC123"));
    let a = plan_from_list(&servers, 730, "test-server");
    assert!(matches!(a, Ok(Action::UseToken(ref t)) if t == "ABC123"));
}

#[test]
fn empty_list_plans_create() {
    let servers: Vec<GameServer> = Vec::new();
    let r = parse_server_list(&servers, 730, "test-server");
    assert!(matches!(r, ParsingResult::NotFound));
    let a = plan_from_list(&servers, 730, "test-server");
    assert!(matches!(a, Ok(Action::CallCreate)));
}

#[test]
fn expired_match_plans_reset_with_steamid() {
    let servers = vec![record("900000000000000001", 730, "OLD", "test-server", true)];
    let r = parse_server_list(&servers, 730, "test-server");
    assert!(matches!(r, ParsingResult::Expired(ref s) if s == "900000000000000001"));
    let a = plan_from_list(&servers, 730, "test-server");
    assert!(matches!(a, Ok(Action::CallReset(900000000000000001))));
}

#[test]
fn first_match_wins_over_later_duplicates() {
    let servers = vec![
        record("1", 730, "FIRST", "m", false),
        record("2", 730, "SECOND", "m", true),
    ];
    let r = parse_server_list(&servers, 730, "m");
    assert!(matches!(r, ParsingResult::Found(ref t) if t == "FIRST"));
}

#[test]
fn memo_comparison_is_exact() {
    let servers = vec![record("1", 730, "T", "Test-Server", false)];
    assert!(matches!(
        parse_server_list(&servers, 730, "test-server"),
        ParsingResult::NotFound
    ));
    assert!(matches!(
        parse_server_list(&servers, 731, "Test-Server"),
        ParsingResult::NotFound
    ));
    assert!(matches!(
        parse_server_list(&servers, 730, "Test-Server"),
        ParsingResult::Found(_)
    ));
}

#[test]
fn expired_with_bad_steamid_fails_domain_parse() {
    let servers = vec![record("not-a-number", 730, "T", "m", true)];
    let a = plan_from_list(&servers, 730, "m");
    assert!(matches!(a, Err(ApiError::SteamIdParse)));
    assert_eq!(exit_code(&ApiError::SteamIdParse), 5);
}

#[test]
fn decide_maps_each_classification() {
    let a = decide(&ParsingResult::Found("tok".to_string()));
    assert!(matches!(a, Ok(Action::UseToken(ref t)) if t == "tok"));
    let b = decide(&ParsingResult::NotFound);
    assert!(matches!(b, Ok(Action::CallCreate)));
    let c = decide(&ParsingResult::Expired("42".to_string()));
    assert!(matches!(c, Ok(Action::CallReset(42))));
}

#[test]
fn exit_codes_match_the_contract() {
    assert_eq!(exit_code(&ApiError::Configuration), 1);
    assert_eq!(exit_code(&ApiError::Remote(403)), 3);
    assert_eq!(exit_code(&ApiError::JsonDecode), 4);
    assert_eq!(exit_code(&ApiError::BodyDecode), 5);
    assert_eq!(exit_code(&ApiError::SteamIdParse), 5);
    assert_eq!(exit_code(&ApiError::Transport), 6);
    assert_eq!(exit_code(&ApiError::Encode), 7);
}

#[test]
fn parse_u64_accepts_digit_strings() {
    assert_eq!(parse_u64("900000000000000001"), Some(900000000000000001));
    assert_eq!(parse_u64("0"), Some(0));
    assert_eq!(parse_u64("018"), Some(18));
    assert_eq!(parse_u64("18446744073709551615"), Some(u64::MAX));
}

#[test]
fn parse_u64_rejects_everything_else() {
    assert_eq!(parse_u64(""), None);
    assert_eq!(parse_u64("12a"), None);
    assert_eq!(parse_u64("-1"), None);
    assert_eq!(parse_u64(" 1"), None);
    assert_eq!(parse_u64("18446744073709551616"), None);
    assert_eq!(parse_u64("99999999999999999999"), None);
}
