//! Decoding of the three response shapes the remote sends and encoding of
//! the two request payloads, against the grammar in `json`. Field order is
//! free, unknown fields are skipped, a missing `memo` defaults to the empty
//! string, and every other documented field is required — a response that
//! decodes at all decodes to exactly one value.
use vstd::prelude::*;

use crate::json::{hex4_ok, hex4_val, is_ws, sp_bool_at, sp_i64_at, sp_skip_value,
    sp_string_body, sp_u64_at, sp_ws, bool_at, i64_at, skip_value, skip_ws, string_body, u64_at};
use crate::model::{views_of, AccountListModel, ApiError, CreateAccountData, CreateAccountModel,
    CreateRespModel, CreateServerResponse, GameServer, GameServerModel, GetAccountListResponse,
    ResetRespModel, ResetServerResponse};
use crate::text::{chars_to_string, dec_digits, dec_val, digit_to_char, hex_char, is_digit,
    push_dec, str_eq, to_chars};

verus! {

/// Reads a JSON string value (opening quote, body, closing quote).
pub open spec fn sp_string_value(s: Seq<char>, i: int) -> Option<(Seq<char>, int)> {
    if !(0 <= i && i < s.len() && s[i] == '"') {
        None
    } else {
        sp_string_body(s, i + 1)
    }
}

fn string_value(s: &[char], i: usize) -> (r: Option<(String, usize)>)
    requires
        i <= s@.len(),
    ensures
        match r {
            Some((t, j)) => sp_string_value(s@, i as int) == Some((t@, j as int)) && i < j
                && j <= s@.len(),
            None => sp_string_value(s@, i as int) is None,
        },
{
    if !(i < s.len() && s[i] == '"') {
        return None;
    }
    match string_body(s, i + 1) {
        Some((t, j)) => Some((chars_to_string(&t), j)),
        None => None,
    }
}

/// Reads an unsigned 32-bit JSON integer.
pub open spec fn sp_u32_at(s: Seq<char>, i: int) -> Option<(u32, int)> {
    match sp_u64_at(s, i) {
        Some((n, e)) => if n <= u32::MAX as u64 {
            Some((n as u32, e))
        } else {
            None
        },
        None => None,
    }
}

fn u32_at(s: &[char], i: usize) -> (r: Option<(u32, usize)>)
    requires
        i <= s@.len(),
    ensures
        match r {
            Some((n, j)) => sp_u32_at(s@, i as int) == Some((n, j as int)) && i < j
                && j <= s@.len(),
            None => sp_u32_at(s@, i as int) is None,
        },
{
    match u64_at(s, i) {
        Some((n, e)) => {
            if n <= 0xFFFFFFFF {
                Some((n as u32, e))
            } else {
                None
            }
        },
        None => None,
    }
}

/// Compares a parsed key against a field name.
fn key_is(key: &Vec<char>, name: &str) -> (r: bool)
    ensures
        r == (key@ == name@),
{
    let ks = chars_to_string(key);
    str_eq(ks.as_str(), name)
}

/// What has been read of a server record so far, field by field.
pub struct ServerFields {
    pub steamid: Option<String>,
    pub appid: Option<u32>,
    pub login_token: Option<String>,
    pub memo: Option<String>,
    pub is_deleted: Option<bool>,
    pub is_expired: Option<bool>,
    pub rt_last_logon: Option<u32>,
}

/// Mathematical image of `ServerFields`.
pub ghost struct ServerFieldsModel {
    pub steamid: Option<Seq<char>>,
    pub appid: Option<u32>,
    pub login_token: Option<Seq<char>>,
    pub memo: Option<Seq<char>>,
    pub is_deleted: Option<bool>,
    pub is_expired: Option<bool>,
    pub rt_last_logon: Option<u32>,
}

impl View for ServerFields {
    type V = ServerFieldsModel;

    open spec fn view(&self) -> ServerFieldsModel {
        ServerFieldsModel {
            steamid: match self.steamid {
                Some(ref v) => Some(v@),
                None => None,
            },
            appid: self.appid,
            login_token: match self.login_token {
                Some(ref v) => Some(v@),
                None => None,
            },
            memo: match self.memo {
                Some(ref v) => Some(v@),
                None => None,
            },
            is_deleted: self.is_deleted,
            is_expired: self.is_expired,
            rt_last_logon: self.rt_last_logon,
        }
    }
}

/// The record a completed set of fields denotes: the documented fields are
/// required, an absent memo defaults to the empty string.
pub open spec fn sp_server_of_fields(f: ServerFieldsModel) -> Option<GameServerModel> {
    if f.steamid is Some && f.appid is Some && f.login_token is Some && f.is_deleted is Some
        && f.is_expired is Some && f.rt_last_logon is Some {
        Some(GameServerModel {
            steamid: f.steamid.unwrap(),
            appid: f.appid.unwrap(),
            login_token: f.login_token.unwrap(),
            memo: match f.memo {
                Some(m) => m,
                None => Seq::empty(),
            },
            is_deleted: f.is_deleted.unwrap(),
            is_expired: f.is_expired.unwrap(),
            rt_last_logon: f.rt_last_logon.unwrap(),
        })
    } else {
        None
    }
}

/// A record whose memo was never given decodes with the empty memo rather
/// than failing, whenever the required fields are all present.
pub proof fn lemma_absent_memo_defaults(f: ServerFieldsModel)
    requires
        f.memo is None,
        f.steamid is Some,
        f.appid is Some,
        f.login_token is Some,
        f.is_deleted is Some,
        f.is_expired is Some,
        f.rt_last_logon is Some,
    ensures
        sp_server_of_fields(f) is Some,
        sp_server_of_fields(f).unwrap().memo == Seq::<char>::empty(),
{
}

/// Walks the members of a server-record object, standing at a key; a known
/// key reads its typed value, appearing twice refuses, an unknown key is
/// skipped; ends just after the closing brace.
pub open spec fn sp_server_members(s: Seq<char>, i: int, acc: ServerFieldsModel)
    -> Option<(ServerFieldsModel, int)>
    decreases s.len() - i when 0 <= i <= s.len()
{
    if !(i < s.len() && s[i] == '"') {
        None
    } else {
        match sp_string_body(s, i + 1) {
            None => None,
            Some((key, j)) => {
                if !(i + 1 < j && j <= s.len()) {
                    None
                } else {
                    let k = sp_ws(s, j);
                    if !(j <= k && k < s.len() && s[k] == ':') {
                        None
                    } else {
                        let m = sp_ws(s, k + 1);
                        if !(k + 1 <= m && m <= s.len()) {
                            None
                        } else {
                            let stepped: Option<(ServerFieldsModel, int)> = if key
                                == "steamid"@ {
                                if acc.steamid is Some {
                                    None
                                } else {
                                    match sp_string_value(s, m) {
                                        Some((v, ve)) => Some(
                                            (ServerFieldsModel { steamid: Some(v), ..acc }, ve),
                                        ),
                                        None => None,
                                    }
                                }
                            } else if key == "appid"@ {
                                if acc.appid is Some {
                                    None
                                } else {
                                    match sp_u32_at(s, m) {
                                        Some((v, ve)) => Some(
                                            (ServerFieldsModel { appid: Some(v), ..acc }, ve),
                                        ),
                                        None => None,
                                    }
                                }
                            } else if key == "login_token"@ {
                                if acc.login_token is Some {
                                    None
                                } else {
                                    match sp_string_value(s, m) {
                                        Some((v, ve)) => Some(
                                            (
                                                ServerFieldsModel {
                                                    login_token: Some(v),
                                                    ..acc
                                                },
                                                ve,
                                            ),
                                        ),
                                        None => None,
                                    }
                                }
                            } else if key == "memo"@ {
                                if acc.memo is Some {
                                    None
                                } else {
                                    match sp_string_value(s, m) {
                                        Some((v, ve)) => Some(
                                            (ServerFieldsModel { memo: Some(v), ..acc }, ve),
                                        ),
                                        None => None,
                                    }
                                }
                            } else if key == "is_deleted"@ {
                                if acc.is_deleted is Some {
                                    None
                                } else {
                                    match sp_bool_at(s, m) {
                                        Some((v, ve)) => Some(
                                            (ServerFieldsModel { is_deleted: Some(v), ..acc }, ve),
                                        ),
                                        None => None,
                                    }
                                }
                            } else if key == "is_expired"@ {
                                if acc.is_expired is Some {
                                    None
                                } else {
                                    match sp_bool_at(s, m) {
                                        Some((v, ve)) => Some(
                                            (ServerFieldsModel { is_expired: Some(v), ..acc }, ve),
                                        ),
                                        None => None,
                                    }
                                }
                            } else if key == "rt_last_logon"@ {
                                if acc.rt_last_logon is Some {
                                    None
                                } else {
                                    match sp_u32_at(s, m) {
                                        Some((v, ve)) => Some(
                                            (
                                                ServerFieldsModel {
                                                    rt_last_logon: Some(v),
                                                    ..acc
                                                },
                                                ve,
                                            ),
                                        ),
                                        None => None,
                                    }
                                }
                            } else {
                                match sp_skip_value(s, m) {
                                    Some(ve) => Some((acc, ve)),
                                    None => None,
                                }
                            };
                            match stepped {
                                None => None,
                                Some((acc2, ve)) => {
                                    if !(m < ve && ve <= s.len()) {
                                        None
                                    } else {
                                        let p = sp_ws(s, ve);
                                        if !(ve <= p && p <= s.len()) {
                                            None
                                        } else if p < s.len() && s[p] == ',' {
                                            let q = sp_ws(s, p + 1);
                                            if !(p + 1 <= q && q <= s.len()) {
                                                None
                                            } else {
                                                sp_server_members(s, q, acc2)
                                            }
                                        } else if p < s.len() && s[p] == '}' {
                                            Some((acc2, p + 1))
                                        } else {
                                            None
                                        }
                                    }
                                },
                            }
                        }
                    }
                }
            },
        }
    }
}

/// Walks server-record members; mirrors `sp_server_members`.
fn server_members(s: &[char], i: usize, acc: ServerFields) -> (r: Option<(ServerFields, usize)>)
    requires
        i <= s@.len(),
    ensures
        match r {
            Some((f, j)) => sp_server_members(s@, i as int, acc@) == Some((f@, j as int))
                && i < j && j <= s@.len(),
            None => sp_server_members(s@, i as int, acc@) is None,
        },
    decreases s@.len() - i,
{
    if !(i < s.len() && s[i] == '"') {
        return None;
    }
    match string_body(s, i + 1) {
        None => None,
        Some((key, j)) => {
            let k = skip_ws(s, j);
            if !(k < s.len() && s[k] == ':') {
                return None;
            }
            let m = skip_ws(s, k + 1);
            let stepped: Option<(ServerFields, usize)> = if key_is(&key, "steamid") {
                if acc.steamid.is_some() {
                    None
                } else {
                    match string_value(s, m) {
                        Some((v, ve)) => Some((ServerFields { steamid: Some(v), ..acc }, ve)),
                        None => None,
                    }
                }
            } else if key_is(&key, "appid") {
                if acc.appid.is_some() {
                    None
                } else {
                    match u32_at(s, m) {
                        Some((v, ve)) => Some((ServerFields { appid: Some(v), ..acc }, ve)),
                        None => None,
                    }
                }
            } else if key_is(&key, "login_token") {
                if acc.login_token.is_some() {
                    None
                } else {
                    match string_value(s, m) {
                        Some((v, ve)) => Some((ServerFields { login_token: Some(v), ..acc }, ve)),
                        None => None,
                    }
                }
            } else if key_is(&key, "memo") {
                if acc.memo.is_some() {
                    None
                } else {
                    match string_value(s, m) {
                        Some((v, ve)) => Some((ServerFields { memo: Some(v), ..acc }, ve)),
                        None => None,
                    }
                }
            } else if key_is(&key, "is_deleted") {
                if acc.is_deleted.is_some() {
                    None
                } else {
                    match bool_at(s, m) {
                        Some((v, ve)) => Some((ServerFields { is_deleted: Some(v), ..acc }, ve)),
                        None => None,
                    }
                }
            } else if key_is(&key, "is_expired") {
                if acc.is_expired.is_some() {
                    None
                } else {
                    match bool_at(s, m) {
                        Some((v, ve)) => Some((ServerFields { is_expired: Some(v), ..acc }, ve)),
                        None => None,
                    }
                }
            } else if key_is(&key, "rt_last_logon") {
                if acc.rt_last_logon.is_some() {
                    None
                } else {
                    match u32_at(s, m) {
                        Some((v, ve)) => Some((ServerFields { rt_last_logon: Some(v), ..acc }, ve)),
                        None => None,
                    }
                }
            } else {
                match skip_value(s, m) {
                    Some(ve) => Some((acc, ve)),
                    None => None,
                }
            };
            match stepped {
                None => None,
                Some((acc2, ve)) => {
                    let p = skip_ws(s, ve);
                    if p < s.len() && s[p] == ',' {
                        let q = skip_ws(s, p + 1);
                        server_members(s, q, acc2)
                    } else if p < s.len() && s[p] == '}' {
                        Some((acc2, p + 1))
                    } else {
                        None
                    }
                },
            }
        },
    }
}

/// No field read yet.
pub open spec fn sp_no_server_fields() -> ServerFieldsModel {
    ServerFieldsModel {
        steamid: None,
        appid: None,
        login_token: None,
        memo: None,
        is_deleted: None,
        is_expired: None,
        rt_last_logon: None,
    }
}

/// Reads one server-record object.
pub open spec fn sp_server_object(s: Seq<char>, i: int) -> Option<(GameServerModel, int)> {
    if !(0 <= i && i < s.len() && s[i] == '{') {
        None
    } else {
        let j = sp_ws(s, i + 1);
        if !(i + 1 <= j && j <= s.len()) {
            None
        } else if j < s.len() && s[j] == '}' {
            None
        } else {
            match sp_server_members(s, j, sp_no_server_fields()) {
                None => None,
                Some((f, e)) => match sp_server_of_fields(f) {
                    Some(g) => Some((g, e)),
                    None => None,
                },
            }
        }
    }
}

/// Reads one server-record object; mirrors `sp_server_object`.
fn server_object(s: &[char], i: usize) -> (r: Option<(GameServer, usize)>)
    requires
        i <= s@.len(),
    ensures
        match r {
            Some((g, j)) => sp_server_object(s@, i as int) == Some((g@, j as int)) && i < j
                && j <= s@.len(),
            None => sp_server_object(s@, i as int) is None,
        },
{
    if !(i < s.len() && s[i] == '{') {
        return None;
    }
    let j = skip_ws(s, i + 1);
    if j < s.len() && s[j] == '}' {
        return None;
    }
    let acc = ServerFields {
        steamid: None,
        appid: None,
        login_token: None,
        memo: None,
        is_deleted: None,
        is_expired: None,
        rt_last_logon: None,
    };
    match server_members(s, j, acc) {
        None => None,
        Some((f, e)) => {
            if f.steamid.is_some() && f.appid.is_some() && f.login_token.is_some()
                && f.is_deleted.is_some() && f.is_expired.is_some()
                && f.rt_last_logon.is_some() {
                let g = GameServer {
                    steamid: f.steamid.unwrap(),
                    appid: f.appid.unwrap(),
                    login_token: f.login_token.unwrap(),
                    memo: match f.memo {
                        Some(m) => m,
                        None => String::new(),
                    },
                    is_deleted: f.is_deleted.unwrap(),
                    is_expired: f.is_expired.unwrap(),
                    rt_last_logon: f.rt_last_logon.unwrap(),
                };
                Some((g, e))
            } else {
                None
            }
        },
    }
}

/// Reads the items of a server array, standing at the first item; ends just
/// after the closing bracket.
pub open spec fn sp_server_items(s: Seq<char>, i: int) -> Option<(Seq<GameServerModel>, int)>
    decreases s.len() - i when 0 <= i <= s.len()
{
    match sp_server_object(s, i) {
        None => None,
        Some((g, ve)) => {
            if !(i < ve && ve <= s.len()) {
                None
            } else {
                let p = sp_ws(s, ve);
                if !(ve <= p && p <= s.len()) {
                    None
                } else if p < s.len() && s[p] == ',' {
                    let q = sp_ws(s, p + 1);
                    if !(p + 1 <= q && q <= s.len()) {
                        None
                    } else {
                        match sp_server_items(s, q) {
                            Some((rest, e)) => Some((seq![g] + rest, e)),
                            None => None,
                        }
                    }
                } else if p < s.len() && s[p] == ']' {
                    Some((seq![g], p + 1))
                } else {
                    None
                }
            }
        },
    }
}

/// Reads server-array items; mirrors `sp_server_items`.
fn server_items(s: &[char], i: usize) -> (r: Option<(Vec<GameServer>, usize)>)
    requires
        i <= s@.len(),
    ensures
        match r {
            Some((v, j)) => sp_server_items(s@, i as int) == Some((views_of(v@), j as int))
                && i < j && j <= s@.len(),
            None => sp_server_items(s@, i as int) is None,
        },
    decreases s@.len() - i,
{
    match server_object(s, i) {
        None => None,
        Some((g, ve)) => {
            let p = skip_ws(s, ve);
            if p < s.len() && s[p] == ',' {
                let q = skip_ws(s, p + 1);
                match server_items(s, q) {
                    Some((mut rest, e)) => {
                        let ghost r0 = rest@;
                        rest.insert(0, g);
                        proof {
                            assert(views_of(rest@) =~= seq![g@] + views_of(r0));
                        }
                        Some((rest, e))
                    },
                    None => None,
                }
            } else if p < s.len() && s[p] == ']' {
                let mut one: Vec<GameServer> = Vec::new();
                one.push(g);
                proof {
                    assert(views_of(one@) =~= seq![g@]);
                }
                Some((one, p + 1))
            } else {
                None
            }
        },
    }
}

/// Reads a server-array value.
pub open spec fn sp_servers_value(s: Seq<char>, i: int) -> Option<(Seq<GameServerModel>, int)> {
    if !(0 <= i && i < s.len() && s[i] == '[') {
        None
    } else {
        let j = sp_ws(s, i + 1);
        if !(i + 1 <= j && j <= s.len()) {
            None
        } else if j < s.len() && s[j] == ']' {
            Some((Seq::empty(), j + 1))
        } else {
            sp_server_items(s, j)
        }
    }
}

/// Reads a server-array value; mirrors `sp_servers_value`.
fn servers_value(s: &[char], i: usize) -> (r: Option<(Vec<GameServer>, usize)>)
    requires
        i <= s@.len(),
    ensures
        match r {
            Some((v, j)) => sp_servers_value(s@, i as int) == Some((views_of(v@), j as int))
                && i < j && j <= s@.len(),
            None => sp_servers_value(s@, i as int) is None,
        },
{
    if !(i < s.len() && s[i] == '[') {
        return None;
    }
    let j = skip_ws(s, i + 1);
    if j < s.len() && s[j] == ']' {
        let none: Vec<GameServer> = Vec::new();
        proof {
            assert(views_of(none@) =~= Seq::<GameServerModel>::empty());
        }
        return Some((none, j + 1));
    }
    server_items(s, j)
}

/// What has been read of the account-list payload so far.
pub struct AccountFields {
    pub servers: Option<Vec<GameServer>>,
    pub is_banned: Option<bool>,
    pub expires: Option<i64>,
    pub actor: Option<String>,
    pub last_action_time: Option<i64>,
}

/// Mathematical image of `AccountFields`.
pub ghost struct AccountFieldsModel {
    pub servers: Option<Seq<GameServerModel>>,
    pub is_banned: Option<bool>,
    pub expires: Option<i64>,
    pub actor: Option<Seq<char>>,
    pub last_action_time: Option<i64>,
}

impl View for AccountFields {
    type V = AccountFieldsModel;

    open spec fn view(&self) -> AccountFieldsModel {
        AccountFieldsModel {
            servers: match self.servers {
                Some(ref v) => Some(views_of(v@)),
                None => None,
            },
            is_banned: self.is_banned,
            expires: self.expires,
            actor: match self.actor {
                Some(ref v) => Some(v@),
                None => None,
            },
            last_action_time: self.last_action_time,
        }
    }
}

/// The payload a completed set of account fields denotes: every documented
/// field is required.
pub open spec fn sp_account_of_fields(f: AccountFieldsModel) -> Option<AccountListModel> {
    if f.servers is Some && f.is_banned is Some && f.expires is Some && f.actor is Some
        && f.last_action_time is Some {
        Some(AccountListModel {
            servers: f.servers.unwrap(),
            is_banned: f.is_banned.unwrap(),
            expires: f.expires.unwrap(),
            actor: f.actor.unwrap(),
            last_action_time: f.last_action_time.unwrap(),
        })
    } else {
        None
    }
}

/// Walks the members of the account-list payload object.
pub open spec fn sp_account_members(s: Seq<char>, i: int, acc: AccountFieldsModel)
    -> Option<(AccountFieldsModel, int)>
    decreases s.len() - i when 0 <= i <= s.len()
{
    if !(i < s.len() && s[i] == '"') {
        None
    } else {
        match sp_string_body(s, i + 1) {
            None => None,
            Some((key, j)) => {
                if !(i + 1 < j && j <= s.len()) {
                    None
                } else {
                    let k = sp_ws(s, j);
                    if !(j <= k && k < s.len() && s[k] == ':') {
                        None
                    } else {
                        let m = sp_ws(s, k + 1);
                        if !(k + 1 <= m && m <= s.len()) {
                            None
                        } else {
                            let stepped: Option<(AccountFieldsModel, int)> = if key
                                == "servers"@ {
                                if acc.servers is Some {
                                    None
                                } else {
                                    match sp_servers_value(s, m) {
                                        Some((v, ve)) => Some(
                                            (AccountFieldsModel { servers: Some(v), ..acc }, ve),
                                        ),
                                        None => None,
                                    }
                                }
                            } else if key == "is_banned"@ {
                                if acc.is_banned is Some {
                                    None
                                } else {
                                    match sp_bool_at(s, m) {
                                        Some((v, ve)) => Some(
                                            (AccountFieldsModel { is_banned: Some(v), ..acc }, ve),
                                        ),
                                        None => None,
                                    }
                                }
                            } else if key == "expires"@ {
                                if acc.expires is Some {
                                    None
                                } else {
                                    match sp_i64_at(s, m) {
                                        Some((v, ve)) => Some(
                                            (AccountFieldsModel { expires: Some(v), ..acc }, ve),
                                        ),
                                        None => None,
                                    }
                                }
                            } else if key == "actor"@ {
                                if acc.actor is Some {
                                    None
                                } else {
                                    match sp_string_value(s, m) {
                                        Some((v, ve)) => Some(
                                            (AccountFieldsModel { actor: Some(v), ..acc }, ve),
                                        ),
                                        None => None,
                                    }
                                }
                            } else if key == "last_action_time"@ {
                                if acc.last_action_time is Some {
                                    None
                                } else {
                                    match sp_i64_at(s, m) {
                                        Some((v, ve)) => Some(
                                            (
                                                AccountFieldsModel {
                                                    last_action_time: Some(v),
                                                    ..acc
                                                },
                                                ve,
                                            ),
                                        ),
                                        None => None,
                                    }
                                }
                            } else {
                                match sp_skip_value(s, m) {
                                    Some(ve) => Some((acc, ve)),
                                    None => None,
                                }
                            };
                            match stepped {
                                None => None,
                                Some((acc2, ve)) => {
                                    if !(m < ve && ve <= s.len()) {
                                        None
                                    } else {
                                        let p = sp_ws(s, ve);
                                        if !(ve <= p && p <= s.len()) {
                                            None
                                        } else if p < s.len() && s[p] == ',' {
                                            let q = sp_ws(s, p + 1);
                                            if !(p + 1 <= q && q <= s.len()) {
                                                None
                                            } else {
                                                sp_account_members(s, q, acc2)
                                            }
                                        } else if p < s.len() && s[p] == '}' {
                                            Some((acc2, p + 1))
                                        } else {
                                            None
                                        }
                                    }
                                },
                            }
                        }
                    }
                }
            },
        }
    }
}

/// Walks account-payload members; mirrors `sp_account_members`.
fn account_members(s: &[char], i: usize, acc: AccountFields)
    -> (r: Option<(AccountFields, usize)>)
    requires
        i <= s@.len(),
    ensures
        match r {
            Some((f, j)) => sp_account_members(s@, i as int, acc@) == Some((f@, j as int))
                && i < j && j <= s@.len(),
            None => sp_account_members(s@, i as int, acc@) is None,
        },
    decreases s@.len() - i,
{
    if !(i < s.len() && s[i] == '"') {
        return None;
    }
    match string_body(s, i + 1) {
        None => None,
        Some((key, j)) => {
            let k = skip_ws(s, j);
            if !(k < s.len() && s[k] == ':') {
                return None;
            }
            let m = skip_ws(s, k + 1);
            let stepped: Option<(AccountFields, usize)> = if key_is(&key, "servers") {
                if acc.servers.is_some() {
                    None
                } else {
                    match servers_value(s, m) {
                        Some((v, ve)) => Some((AccountFields { servers: Some(v), ..acc }, ve)),
                        None => None,
                    }
                }
            } else if key_is(&key, "is_banned") {
                if acc.is_banned.is_some() {
                    None
                } else {
                    match bool_at(s, m) {
                        Some((v, ve)) => Some((AccountFields { is_banned: Some(v), ..acc }, ve)),
                        None => None,
                    }
                }
            } else if key_is(&key, "expires") {
                if acc.expires.is_some() {
                    None
                } else {
                    match i64_at(s, m) {
                        Some((v, ve)) => Some((AccountFields { expires: Some(v), ..acc }, ve)),
                        None => None,
                    }
                }
            } else if key_is(&key, "actor") {
                if acc.actor.is_some() {
                    None
                } else {
                    match string_value(s, m) {
                        Some((v, ve)) => Some((AccountFields { actor: Some(v), ..acc }, ve)),
                        None => None,
                    }
                }
            } else if key_is(&key, "last_action_time") {
                if acc.last_action_time.is_some() {
                    None
                } else {
                    match i64_at(s, m) {
                        Some((v, ve)) => Some(
                            (AccountFields { last_action_time: Some(v), ..acc }, ve),
                        ),
                        None => None,
                    }
                }
            } else {
                match skip_value(s, m) {
                    Some(ve) => Some((acc, ve)),
                    None => None,
                }
            };
            match stepped {
                None => None,
                Some((acc2, ve)) => {
                    let p = skip_ws(s, ve);
                    if p < s.len() && s[p] == ',' {
                        let q = skip_ws(s, p + 1);
                        account_members(s, q, acc2)
                    } else if p < s.len() && s[p] == '}' {
                        Some((acc2, p + 1))
                    } else {
                        None
                    }
                },
            }
        },
    }
}

/// Reads the account-list payload object.
pub open spec fn sp_account_object(s: Seq<char>, i: int) -> Option<(AccountListModel, int)> {
    if !(0 <= i && i < s.len() && s[i] == '{') {
        None
    } else {
        let j = sp_ws(s, i + 1);
        if !(i + 1 <= j && j <= s.len()) {
            None
        } else if j < s.len() && s[j] == '}' {
            None
        } else {
            match sp_account_members(
                s,
                j,
                AccountFieldsModel {
                    servers: None,
                    is_banned: None,
                    expires: None,
                    actor: None,
                    last_action_time: None,
                },
            ) {
                None => None,
                Some((f, e)) => match sp_account_of_fields(f) {
                    Some(a) => Some((a, e)),
                    None => None,
                },
            }
        }
    }
}

/// Reads the account-list payload object; mirrors `sp_account_object`.
fn account_object(s: &[char], i: usize) -> (r: Option<(GetAccountListResponse, usize)>)
    requires
        i <= s@.len(),
    ensures
        match r {
            Some((a, j)) => sp_account_object(s@, i as int) == Some((a@, j as int)) && i < j
                && j <= s@.len(),
            None => sp_account_object(s@, i as int) is None,
        },
{
    if !(i < s.len() && s[i] == '{') {
        return None;
    }
    let j = skip_ws(s, i + 1);
    if j < s.len() && s[j] == '}' {
        return None;
    }
    let acc = AccountFields {
        servers: None,
        is_banned: None,
        expires: None,
        actor: None,
        last_action_time: None,
    };
    match account_members(s, j, acc) {
        None => None,
        Some((f, e)) => {
            if f.servers.is_some() && f.is_banned.is_some() && f.expires.is_some()
                && f.actor.is_some() && f.last_action_time.is_some() {
                let a = GetAccountListResponse {
                    servers: f.servers.unwrap(),
                    is_banned: f.is_banned.unwrap(),
                    expires: f.expires.unwrap(),
                    actor: f.actor.unwrap(),
                    last_action_time: f.last_action_time.unwrap(),
                };
                Some((a, e))
            } else {
                None
            }
        },
    }
}

/// Mathematical image of an optional recorded position.
pub open spec fn opt_pos(x: Option<usize>) -> Option<int> {
    match x {
        Some(v) => Some(v as int),
        None => None,
    }
}

/// Mathematical image of an optional owned string.
pub open spec fn opt_str(x: Option<String>) -> Option<Seq<char>> {
    match x {
        Some(v) => Some(v@),
        None => None,
    }
}

/// Walks the members of the response envelope, remembering where the value
/// under `response` starts and stepping over every value.
pub open spec fn sp_env_members(s: Seq<char>, i: int, resp: Option<int>)
    -> Option<(Option<int>, int)>
    decreases s.len() - i when 0 <= i <= s.len()
{
    if !(i < s.len() && s[i] == '"') {
        None
    } else {
        match sp_string_body(s, i + 1) {
            None => None,
            Some((key, j)) => {
                if !(i + 1 < j && j <= s.len()) {
                    None
                } else {
                    let k = sp_ws(s, j);
                    if !(j <= k && k < s.len() && s[k] == ':') {
                        None
                    } else {
                        let m = sp_ws(s, k + 1);
                        if !(k + 1 <= m && m <= s.len()) {
                            None
                        } else {
                            let stepped: Option<Option<int>> = if key == "response"@ {
                                if resp is Some {
                                    None
                                } else {
                                    Some(Some(m))
                                }
                            } else {
                                Some(resp)
                            };
                            match stepped {
                                None => None,
                                Some(racc) => match sp_skip_value(s, m) {
                                    None => None,
                                    Some(ve) => {
                                        if !(m < ve && ve <= s.len()) {
                                            None
                                        } else {
                                            let p = sp_ws(s, ve);
                                            if !(ve <= p && p <= s.len()) {
                                                None
                                            } else if p < s.len() && s[p] == ',' {
                                                let q = sp_ws(s, p + 1);
                                                if !(p + 1 <= q && q <= s.len()) {
                                                    None
                                                } else {
                                                    sp_env_members(s, q, racc)
                                                }
                                            } else if p < s.len() && s[p] == '}' {
                                                Some((racc, p + 1))
                                            } else {
                                                None
                                            }
                                        }
                                    },
                                },
                            }
                        }
                    }
                }
            },
        }
    }
}

/// Walks envelope members; mirrors `sp_env_members`.
fn env_members(s: &[char], i: usize, resp: Option<usize>) -> (r: Option<(Option<usize>, usize)>)
    requires
        i <= s@.len(),
        resp is Some ==> resp.unwrap() <= s@.len(),
    ensures
        match r {
            Some((v, j)) => sp_env_members(s@, i as int, opt_pos(resp)) == Some(
                (opt_pos(v), j as int),
            ) && i < j && j <= s@.len() && (v is Some ==> v.unwrap() <= s@.len()),
            None => sp_env_members(s@, i as int, opt_pos(resp)) is None,
        },
    decreases s@.len() - i,
{
    if !(i < s.len() && s[i] == '"') {
        return None;
    }
    match string_body(s, i + 1) {
        None => None,
        Some((key, j)) => {
            let k = skip_ws(s, j);
            if !(k < s.len() && s[k] == ':') {
                return None;
            }
            let m = skip_ws(s, k + 1);
            let stepped: Option<Option<usize>> = if key_is(&key, "response") {
                if resp.is_some() {
                    None
                } else {
                    Some(Some(m))
                }
            } else {
                Some(resp)
            };
            match stepped {
                None => None,
                Some(racc) => match skip_value(s, m) {
                    None => None,
                    Some(ve) => {
                        let p = skip_ws(s, ve);
                        if p < s.len() && s[p] == ',' {
                            let q = skip_ws(s, p + 1);
                            env_members(s, q, racc)
                        } else if p < s.len() && s[p] == '}' {
                            Some((racc, p + 1))
                        } else {
                            None
                        }
                    },
                },
            }
        },
    }
}

/// Position of the payload under `response` in a full response document:
/// whitespace, the envelope object, whitespace, end of input; the envelope
/// must carry `response` exactly once and be syntactically whole.
pub open spec fn sp_envelope_value(s: Seq<char>) -> Option<int> {
    let i0 = sp_ws(s, 0);
    if !(0 <= i0 && i0 <= s.len()) {
        None
    } else if !(i0 < s.len() && s[i0] == '{') {
        None
    } else {
        let j = sp_ws(s, i0 + 1);
        if !(i0 + 1 <= j && j <= s.len()) {
            None
        } else if j < s.len() && s[j] == '}' {
            None
        } else {
            match sp_env_members(s, j, None) {
                None => None,
                Some((resp, e)) => {
                    if !(0 <= e && e <= s.len()) {
                        None
                    } else {
                        let p = sp_ws(s, e);
                        if p == s.len() {
                            resp
                        } else {
                            None
                        }
                    }
                },
            }
        }
    }
}

/// Finds the response payload; mirrors `sp_envelope_value`.
fn envelope_value(s: &[char]) -> (r: Option<usize>)
    ensures
        match r {
            Some(v) => sp_envelope_value(s@) == Some(v as int) && v <= s@.len(),
            None => sp_envelope_value(s@) is None,
        },
{
    let i0 = skip_ws(s, 0);
    if !(i0 < s.len() && s[i0] == '{') {
        return None;
    }
    let j = skip_ws(s, i0 + 1);
    if j < s.len() && s[j] == '}' {
        return None;
    }
    match env_members(s, j, None) {
        None => None,
        Some((resp, e)) => {
            let p = skip_ws(s, e);
            if p == s.len() {
                resp
            } else {
                None
            }
        },
    }
}

/// Walks the members of a create-account response payload: `steamid` and
/// `login_token`, both strings; unknown fields skipped.
pub open spec fn sp_create_members(
    s: Seq<char>,
    i: int,
    sid: Option<Seq<char>>,
    tok: Option<Seq<char>>,
) -> Option<((Option<Seq<char>>, Option<Seq<char>>), int)>
    decreases s.len() - i when 0 <= i <= s.len()
{
    if !(i < s.len() && s[i] == '"') {
        None
    } else {
        match sp_string_body(s, i + 1) {
            None => None,
            Some((key, j)) => {
                if !(i + 1 < j && j <= s.len()) {
                    None
                } else {
                    let k = sp_ws(s, j);
                    if !(j <= k && k < s.len() && s[k] == ':') {
                        None
                    } else {
                        let m = sp_ws(s, k + 1);
                        if !(k + 1 <= m && m <= s.len()) {
                            None
                        } else {
                            let stepped: Option<
                                ((Option<Seq<char>>, Option<Seq<char>>), int),
                            > = if key == "steamid"@ {
                                if sid is Some {
                                    None
                                } else {
                                    match sp_string_value(s, m) {
                                        Some((v, ve)) => Some(((Some(v), tok), ve)),
                                        None => None,
                                    }
                                }
                            } else if key == "login_token"@ {
                                if tok is Some {
                                    None
                                } else {
                                    match sp_string_value(s, m) {
                                        Some((v, ve)) => Some(((sid, Some(v)), ve)),
                                        None => None,
                                    }
                                }
                            } else {
                                match sp_skip_value(s, m) {
                                    Some(ve) => Some(((sid, tok), ve)),
                                    None => None,
                                }
                            };
                            match stepped {
                                None => None,
                                Some((acc2, ve)) => {
                                    if !(m < ve && ve <= s.len()) {
                                        None
                                    } else {
                                        let p = sp_ws(s, ve);
                                        if !(ve <= p && p <= s.len()) {
                                            None
                                        } else if p < s.len() && s[p] == ',' {
                                            let q = sp_ws(s, p + 1);
                                            if !(p + 1 <= q && q <= s.len()) {
                                                None
                                            } else {
                                                sp_create_members(s, q, acc2.0, acc2.1)
                                            }
                                        } else if p < s.len() && s[p] == '}' {
                                            Some((acc2, p + 1))
                                        } else {
                                            None
                                        }
                                    }
                                },
                            }
                        }
                    }
                }
            },
        }
    }
}

/// Walks create-response members; mirrors `sp_create_members`.
fn create_members(s: &[char], i: usize, sid: Option<String>, tok: Option<String>)
    -> (r: Option<((Option<String>, Option<String>), usize)>)
    requires
        i <= s@.len(),
    ensures
        match r {
            Some(((rs, rt), j)) => sp_create_members(s@, i as int, opt_str(sid), opt_str(tok))
                == Some(((opt_str(rs), opt_str(rt)), j as int)) && i < j && j <= s@.len(),
            None => sp_create_members(s@, i as int, opt_str(sid), opt_str(tok)) is None,
        },
    decreases s@.len() - i,
{
    if !(i < s.len() && s[i] == '"') {
        return None;
    }
    match string_body(s, i + 1) {
        None => None,
        Some((key, j)) => {
            let k = skip_ws(s, j);
            if !(k < s.len() && s[k] == ':') {
                return None;
            }
            let m = skip_ws(s, k + 1);
            let stepped: Option<((Option<String>, Option<String>), usize)> = if key_is(
                &key,
                "steamid",
            ) {
                if sid.is_some() {
                    None
                } else {
                    match string_value(s, m) {
                        Some((v, ve)) => Some(((Some(v), tok), ve)),
                        None => None,
                    }
                }
            } else if key_is(&key, "login_token") {
                if tok.is_some() {
                    None
                } else {
                    match string_value(s, m) {
                        Some((v, ve)) => Some(((sid, Some(v)), ve)),
                        None => None,
                    }
                }
            } else {
                match skip_value(s, m) {
                    Some(ve) => Some(((sid, tok), ve)),
                    None => None,
                }
            };
            match stepped {
                None => None,
                Some((acc2, ve)) => {
                    let p = skip_ws(s, ve);
                    if p < s.len() && s[p] == ',' {
                        let q = skip_ws(s, p + 1);
                        create_members(s, q, acc2.0, acc2.1)
                    } else if p < s.len() && s[p] == '}' {
                        Some((acc2, p + 1))
                    } else {
                        None
                    }
                },
            }
        },
    }
}

/// Reads the create-account response payload object: both fields required.
pub open spec fn sp_create_object(s: Seq<char>, i: int) -> Option<(CreateRespModel, int)> {
    if !(0 <= i && i < s.len() && s[i] == '{') {
        None
    } else {
        let j = sp_ws(s, i + 1);
        if !(i + 1 <= j && j <= s.len()) {
            None
        } else if j < s.len() && s[j] == '}' {
            None
        } else {
            match sp_create_members(s, j, None, None) {
                None => None,
                Some(((sid, tok), e)) => {
                    if sid is Some && tok is Some {
                        Some(
                            (
                                CreateRespModel {
                                    steamid: sid.unwrap(),
                                    login_token: tok.unwrap(),
                                },
                                e,
                            ),
                        )
                    } else {
                        None
                    }
                },
            }
        }
    }
}

/// Reads the create-account response payload; mirrors `sp_create_object`.
fn create_object(s: &[char], i: usize) -> (r: Option<(CreateServerResponse, usize)>)
    requires
        i <= s@.len(),
    ensures
        match r {
            Some((c, j)) => sp_create_object(s@, i as int) == Some((c@, j as int)) && i < j
                && j <= s@.len(),
            None => sp_create_object(s@, i as int) is None,
        },
{
    if !(i < s.len() && s[i] == '{') {
        return None;
    }
    let j = skip_ws(s, i + 1);
    if j < s.len() && s[j] == '}' {
        return None;
    }
    match create_members(s, j, None, None) {
        None => None,
        Some(((sid, tok), e)) => {
            if sid.is_some() && tok.is_some() {
                Some(
                    (
                        CreateServerResponse { steamid: sid.unwrap(), login_token: tok.unwrap() },
                        e,
                    ),
                )
            } else {
                None
            }
        },
    }
}

/// Walks the members of a reset-token response payload: `login_token`, a
/// string; unknown fields skipped.
pub open spec fn sp_reset_members(s: Seq<char>, i: int, tok: Option<Seq<char>>)
    -> Option<(Option<Seq<char>>, int)>
    decreases s.len() - i when 0 <= i <= s.len()
{
    if !(i < s.len() && s[i] == '"') {
        None
    } else {
        match sp_string_body(s, i + 1) {
            None => None,
            Some((key, j)) => {
                if !(i + 1 < j && j <= s.len()) {
                    None
                } else {
                    let k = sp_ws(s, j);
                    if !(j <= k && k < s.len() && s[k] == ':') {
                        None
                    } else {
                        let m = sp_ws(s, k + 1);
                        if !(k + 1 <= m && m <= s.len()) {
                            None
                        } else {
                            let stepped: Option<(Option<Seq<char>>, int)> = if key
                                == "login_token"@ {
                                if tok is Some {
                                    None
                                } else {
                                    match sp_string_value(s, m) {
                                        Some((v, ve)) => Some((Some(v), ve)),
                                        None => None,
                                    }
                                }
                            } else {
                                match sp_skip_value(s, m) {
                                    Some(ve) => Some((tok, ve)),
                                    None => None,
                                }
                            };
                            match stepped {
                                None => None,
                                Some((acc2, ve)) => {
                                    if !(m < ve && ve <= s.len()) {
                                        None
                                    } else {
                                        let p = sp_ws(s, ve);
                                        if !(ve <= p && p <= s.len()) {
                                            None
                                        } else if p < s.len() && s[p] == ',' {
                                            let q = sp_ws(s, p + 1);
                                            if !(p + 1 <= q && q <= s.len()) {
                                                None
                                            } else {
                                                sp_reset_members(s, q, acc2)
                                            }
                                        } else if p < s.len() && s[p] == '}' {
                                            Some((acc2, p + 1))
                                        } else {
                                            None
                                        }
                                    }
                                },
                            }
                        }
                    }
                }
            },
        }
    }
}

/// Walks reset-response members; mirrors `sp_reset_members`.
fn reset_members(s: &[char], i: usize, tok: Option<String>)
    -> (r: Option<(Option<String>, usize)>)
    requires
        i <= s@.len(),
    ensures
        match r {
            Some((rt, j)) => sp_reset_members(s@, i as int, opt_str(tok)) == Some(
                (opt_str(rt), j as int),
            ) && i < j && j <= s@.len(),
            None => sp_reset_members(s@, i as int, opt_str(tok)) is None,
        },
    decreases s@.len() - i,
{
    if !(i < s.len() && s[i] == '"') {
        return None;
    }
    match string_body(s, i + 1) {
        None => None,
        Some((key, j)) => {
            let k = skip_ws(s, j);
            if !(k < s.len() && s[k] == ':') {
                return None;
            }
            let m = skip_ws(s, k + 1);
            let stepped: Option<(Option<String>, usize)> = if key_is(&key, "login_token") {
                if tok.is_some() {
                    None
                } else {
                    match string_value(s, m) {
                        Some((v, ve)) => Some((Some(v), ve)),
                        None => None,
                    }
                }
            } else {
                match skip_value(s, m) {
                    Some(ve) => Some((tok, ve)),
                    None => None,
                }
            };
            match stepped {
                None => None,
                Some((acc2, ve)) => {
                    let p = skip_ws(s, ve);
                    if p < s.len() && s[p] == ',' {
                        let q = skip_ws(s, p + 1);
                        reset_members(s, q, acc2)
                    } else if p < s.len() && s[p] == '}' {
                        Some((acc2, p + 1))
                    } else {
                        None
                    }
                },
            }
        },
    }
}

/// Reads the reset-token response payload object: the token is required.
pub open spec fn sp_reset_object(s: Seq<char>, i: int) -> Option<(ResetRespModel, int)> {
    if !(0 <= i && i < s.len() && s[i] == '{') {
        None
    } else {
        let j = sp_ws(s, i + 1);
        if !(i + 1 <= j && j <= s.len()) {
            None
        } else if j < s.len() && s[j] == '}' {
            None
        } else {
            match sp_reset_members(s, j, None) {
                None => None,
                Some((tok, e)) => {
                    if tok is Some {
                        Some((ResetRespModel { login_token: tok.unwrap() }, e))
                    } else {
                        None
                    }
                },
            }
        }
    }
}

/// Reads the reset-token response payload; mirrors `sp_reset_object`.
fn reset_object(s: &[char], i: usize) -> (r: Option<(ResetServerResponse, usize)>)
    requires
        i <= s@.len(),
    ensures
        match r {
            Some((c, j)) => sp_reset_object(s@, i as int) == Some((c@, j as int)) && i < j
                && j <= s@.len(),
            None => sp_reset_object(s@, i as int) is None,
        },
{
    if !(i < s.len() && s[i] == '{') {
        return None;
    }
    let j = skip_ws(s, i + 1);
    if j < s.len() && s[j] == '}' {
        return None;
    }
    match reset_members(s, j, None) {
        None => None,
        Some((tok, e)) => {
            if tok.is_some() {
                Some((ResetServerResponse { login_token: tok.unwrap() }, e))
            } else {
                None
            }
        },
    }
}

/// The account list a full list-call response denotes, if any.
pub open spec fn sp_account_doc(s: Seq<char>) -> Option<AccountListModel> {
    match sp_envelope_value(s) {
        None => None,
        Some(v) => {
            if !(0 <= v && v <= s.len()) {
                None
            } else {
                match sp_account_object(s, v) {
                    Some((a, e)) => Some(a),
                    None => None,
                }
            }
        },
    }
}

/// The create response a full create-call response denotes, if any.
pub open spec fn sp_create_doc(s: Seq<char>) -> Option<CreateRespModel> {
    match sp_envelope_value(s) {
        None => None,
        Some(v) => {
            if !(0 <= v && v <= s.len()) {
                None
            } else {
                match sp_create_object(s, v) {
                    Some((c, e)) => Some(c),
                    None => None,
                }
            }
        },
    }
}

/// The reset response a full reset-call response denotes, if any.
pub open spec fn sp_reset_doc(s: Seq<char>) -> Option<ResetRespModel> {
    match sp_envelope_value(s) {
        None => None,
        Some(v) => {
            if !(0 <= v && v <= s.len()) {
                None
            } else {
                match sp_reset_object(s, v) {
                    Some((c, e)) => Some(c),
                    None => None,
                }
            }
        },
    }
}

/// Decodes the body of a list call. Succeeds exactly when the body is a
/// well-formed response document whose payload carries every documented
/// account field, `memo` defaulting to empty where absent; anything else is
/// a decode failure.
pub fn decode_account_list(body: &str) -> (r: Result<GetAccountListResponse, ApiError>)
    ensures
        match r {
            Ok(resp) => sp_account_doc(body@) == Some(resp@),
            Err(e) => sp_account_doc(body@) is None && e == ApiError::JsonDecode,
        },
{
    let cs = to_chars(body);
    let s = cs.as_slice();
    match envelope_value(s) {
        None => Err(ApiError::JsonDecode),
        Some(v) => match account_object(s, v) {
            Some((resp, e)) => Ok(resp),
            None => Err(ApiError::JsonDecode),
        },
    }
}

/// Decodes the body of a create call.
pub fn decode_create_response(body: &str) -> (r: Result<CreateServerResponse, ApiError>)
    ensures
        match r {
            Ok(resp) => sp_create_doc(body@) == Some(resp@),
            Err(e) => sp_create_doc(body@) is None && e == ApiError::JsonDecode,
        },
{
    let cs = to_chars(body);
    let s = cs.as_slice();
    match envelope_value(s) {
        None => Err(ApiError::JsonDecode),
        Some(v) => match create_object(s, v) {
            Some((resp, e)) => Ok(resp),
            None => Err(ApiError::JsonDecode),
        },
    }
}

/// Decodes the body of a reset call.
pub fn decode_reset_response(body: &str) -> (r: Result<ResetServerResponse, ApiError>)
    ensures
        match r {
            Ok(resp) => sp_reset_doc(body@) == Some(resp@),
            Err(e) => sp_reset_doc(body@) is None && e == ApiError::JsonDecode,
        },
{
    let cs = to_chars(body);
    let s = cs.as_slice();
    match envelope_value(s) {
        None => Err(ApiError::JsonDecode),
        Some(v) => match reset_object(s, v) {
            Some((resp, e)) => Ok(resp),
            None => Err(ApiError::JsonDecode),
        },
    }
}

/// How one character is written inside a JSON string: quote, backslash and
/// control characters are escaped, control characters without a short form
/// as lowercase `\u00XX`; everything else stands for itself.
pub open spec fn escape_char(c: char) -> Seq<char> {
    if c == '"' {
        seq!['\\', '"']
    } else if c == '\\' {
        seq!['\\', '\\']
    } else if c == '\u{8}' {
        seq!['\\', 'b']
    } else if c == '\t' {
        seq!['\\', 't']
    } else if c == '\n' {
        seq!['\\', 'n']
    } else if c == '\u{c}' {
        seq!['\\', 'f']
    } else if c == '\r' {
        seq!['\\', 'r']
    } else if (c as u32) < 32 {
        seq![
            '\\',
            'u',
            '0',
            '0',
            hex_char(((c as u32) / 16) as nat),
            hex_char(((c as u32) % 16) as nat),
        ]
    } else {
        seq![c]
    }
}

/// How a whole string is written inside JSON quotes.
pub open spec fn escape(s: Seq<char>) -> Seq<char>
    decreases s.len(),
{
    if s.len() == 0 {
        Seq::empty()
    } else {
        escape_char(s[0]) + escape(s.skip(1))
    }
}

/// Escaping a string one character longer appends that character's escape.
pub proof fn lemma_escape_push(s: Seq<char>, c: char)
    ensures
        escape(s.push(c)) == escape(s) + escape_char(c),
    decreases s.len(),
{
    if s.len() == 0 {
        assert(s.push(c)[0] == c);
        assert(s.push(c).skip(1) =~= Seq::<char>::empty());
        assert(escape(s.push(c)) == escape_char(c) + escape(Seq::<char>::empty()));
        assert(escape(s.push(c)) =~= escape(s) + escape_char(c));
    } else {
        assert(s.push(c)[0] == s[0]);
        assert(s.push(c).skip(1) =~= s.skip(1).push(c));
        lemma_escape_push(s.skip(1), c);
        assert(escape(s.push(c)) == escape_char(s[0]) + escape(s.skip(1).push(c)));
        assert(escape(s) == escape_char(s[0]) + escape(s.skip(1)));
        assert(escape(s.push(c)) =~= escape(s) + escape_char(c));
    }
}

/// Exec counterpart of `hex_char`.
fn hex_to_char(d: u32) -> (c: char)
    requires
        d < 16,
    ensures
        c == hex_char(d as nat),
{
    if d < 10 {
        digit_to_char(d as u64)
    } else if d == 10 { 'a' }
    else if d == 11 { 'b' }
    else if d == 12 { 'c' }
    else if d == 13 { 'd' }
    else if d == 14 { 'e' }
    else { 'f' }
}

/// Appends the JSON escape of `src` to `out`.
fn push_escaped(src: &Vec<char>, out: &mut Vec<char>)
    ensures
        final(out)@ == old(out)@ + escape(src@),
{
    let mut i: usize = 0;
    proof {
        assert(src@.take(0) =~= Seq::<char>::empty());
        assert(out@ =~= old(out)@ + escape(src@.take(0)));
    }
    while i < src.len()
        invariant
            i <= src@.len(),
            out@ == old(out)@ + escape(src@.take(i as int)),
        decreases src@.len() - i,
    {
        let c = src[i];
        let ghost before = out@;
        if c == '"' {
            out.push('\\');
            out.push('"');
        } else if c == '\\' {
            out.push('\\');
            out.push('\\');
        } else if c == '\u{8}' {
            out.push('\\');
            out.push('b');
        } else if c == '\t' {
            out.push('\\');
            out.push('t');
        } else if c == '\n' {
            out.push('\\');
            out.push('n');
        } else if c == '\u{c}' {
            out.push('\\');
            out.push('f');
        } else if c == '\r' {
            out.push('\\');
            out.push('r');
        } else if (c as u32) < 32 {
            out.push('\\');
            out.push('u');
            out.push('0');
            out.push('0');
            out.push(hex_to_char((c as u32) / 16));
            out.push(hex_to_char((c as u32) % 16));
        } else {
            out.push(c);
        }
        proof {
            assert(out@ =~= before + escape_char(src@[i as int]));
            lemma_escape_push(src@.take(i as int), src@[i as int]);
            assert(src@.take(i as int).push(src@[i as int]) =~= src@.take(i as int + 1));
            assert(out@ =~= old(out)@ + escape(src@.take(i as int + 1)));
        }
        i += 1;
    }
    proof {
        assert(src@.take(src@.len() as int) =~= src@);
    }
}

/// The exact body of a create call for (appid, memo), as the service's
/// calling convention writes it.
pub open spec fn sp_encode_create(appid: u32, memo: Seq<char>) -> Seq<char> {
    "{\"appid\":"@ + dec_digits(appid as nat) + ",\"memo\":\""@ + escape(memo) + "\"}"@
}

/// The exact body of a reset call for a steamid.
pub open spec fn sp_encode_reset(steamid: u64) -> Seq<char> {
    "{\"steamid\":"@ + dec_digits(steamid as nat) + "}"@
}

/// Writes the create-call body for (appid, memo).
pub fn format_create_json(appid: u32, memo: &str) -> (r: String)
    ensures
        r@ == sp_encode_create(appid, memo@),
{
    let mut out = to_chars("{\"appid\":");
    push_dec(appid as u64, &mut out);
    let mut mid = to_chars(",\"memo\":\"");
    out.append(&mut mid);
    let memo_chars = to_chars(memo);
    push_escaped(&memo_chars, &mut out);
    let mut tail = to_chars("\"}");
    out.append(&mut tail);
    let r = chars_to_string(&out);
    proof {
        assert(r@ =~= sp_encode_create(appid, memo@));
    }
    r
}

/// Writes the reset-call body for a steamid.
pub fn format_reset_json(steamid: u64) -> (r: String)
    ensures
        r@ == sp_encode_reset(steamid),
{
    let mut out = to_chars("{\"steamid\":");
    push_dec(steamid, &mut out);
    let mut tail = to_chars("}");
    out.append(&mut tail);
    let r = chars_to_string(&out);
    proof {
        assert(r@ =~= sp_encode_reset(steamid));
    }
    r
}

/// Walks the members of a create-call body: `appid`, an unsigned 32-bit
/// number, and `memo`, a string; unknown fields skipped.
pub open spec fn sp_create_payload_members(
    s: Seq<char>,
    i: int,
    appid: Option<u32>,
    memo: Option<Seq<char>>,
) -> Option<((Option<u32>, Option<Seq<char>>), int)>
    decreases s.len() - i when 0 <= i <= s.len()
{
    if !(i < s.len() && s[i] == '"') {
        None
    } else {
        match sp_string_body(s, i + 1) {
            None => None,
            Some((key, j)) => {
                if !(i + 1 < j && j <= s.len()) {
                    None
                } else {
                    let k = sp_ws(s, j);
                    if !(j <= k && k < s.len() && s[k] == ':') {
                        None
                    } else {
                        let m = sp_ws(s, k + 1);
                        if !(k + 1 <= m && m <= s.len()) {
                            None
                        } else {
                            let stepped: Option<((Option<u32>, Option<Seq<char>>), int)> = if key
                                == "appid"@ {
                                if appid is Some {
                                    None
                                } else {
                                    match sp_u32_at(s, m) {
                                        Some((v, ve)) => Some(((Some(v), memo), ve)),
                                        None => None,
                                    }
                                }
                            } else if key == "memo"@ {
                                if memo is Some {
                                    None
                                } else {
                                    match sp_string_value(s, m) {
                                        Some((v, ve)) => Some(((appid, Some(v)), ve)),
                                        None => None,
                                    }
                                }
                            } else {
                                match sp_skip_value(s, m) {
                                    Some(ve) => Some(((appid, memo), ve)),
                                    None => None,
                                }
                            };
                            match stepped {
                                None => None,
                                Some((acc2, ve)) => {
                                    if !(m < ve && ve <= s.len()) {
                                        None
                                    } else {
                                        let p = sp_ws(s, ve);
                                        if !(ve <= p && p <= s.len()) {
                                            None
                                        } else if p < s.len() && s[p] == ',' {
                                            let q = sp_ws(s, p + 1);
                                            if !(p + 1 <= q && q <= s.len()) {
                                                None
                                            } else {
                                                sp_create_payload_members(s, q, acc2.0, acc2.1)
                                            }
                                        } else if p < s.len() && s[p] == '}' {
                                            Some((acc2, p + 1))
                                        } else {
                                            None
                                        }
                                    }
                                },
                            }
                        }
                    }
                }
            },
        }
    }
}

/// Walks create-body members; mirrors `sp_create_payload_members`.
fn create_payload_members(s: &[char], i: usize, appid: Option<u32>, memo: Option<String>)
    -> (r: Option<((Option<u32>, Option<String>), usize)>)
    requires
        i <= s@.len(),
    ensures
        match r {
            Some(((ra, rm), j)) => sp_create_payload_members(
                s@,
                i as int,
                appid,
                opt_str(memo),
            ) == Some(((ra, opt_str(rm)), j as int)) && i < j && j <= s@.len(),
            None => sp_create_payload_members(s@, i as int, appid, opt_str(memo)) is None,
        },
    decreases s@.len() - i,
{
    if !(i < s.len() && s[i] == '"') {
        return None;
    }
    match string_body(s, i + 1) {
        None => None,
        Some((key, j)) => {
            let k = skip_ws(s, j);
            if !(k < s.len() && s[k] == ':') {
                return None;
            }
            let m = skip_ws(s, k + 1);
            let stepped: Option<((Option<u32>, Option<String>), usize)> = if key_is(
                &key,
                "appid",
            ) {
                if appid.is_some() {
                    None
                } else {
                    match u32_at(s, m) {
                        Some((v, ve)) => Some(((Some(v), memo), ve)),
                        None => None,
                    }
                }
            } else if key_is(&key, "memo") {
                if memo.is_some() {
                    None
                } else {
                    match string_value(s, m) {
                        Some((v, ve)) => Some(((appid, Some(v)), ve)),
                        None => None,
                    }
                }
            } else {
                match skip_value(s, m) {
                    Some(ve) => Some(((appid, memo), ve)),
                    None => None,
                }
            };
            match stepped {
                None => None,
                Some((acc2, ve)) => {
                    let p = skip_ws(s, ve);
                    if p < s.len() && s[p] == ',' {
                        let q = skip_ws(s, p + 1);
                        create_payload_members(s, q, acc2.0, acc2.1)
                    } else if p < s.len() && s[p] == '}' {
                        Some((acc2, p + 1))
                    } else {
                        None
                    }
                },
            }
        },
    }
}

/// The create-call payload a whole document denotes: whitespace, an object
/// carrying `appid` and `memo` exactly once each, whitespace, end of input.
pub open spec fn sp_create_payload_doc(s: Seq<char>) -> Option<CreateAccountModel> {
    let i0 = sp_ws(s, 0);
    if !(0 <= i0 && i0 <= s.len()) {
        None
    } else if !(i0 < s.len() && s[i0] == '{') {
        None
    } else {
        let j = sp_ws(s, i0 + 1);
        if !(i0 + 1 <= j && j <= s.len()) {
            None
        } else if j < s.len() && s[j] == '}' {
            None
        } else {
            match sp_create_payload_members(s, j, None, None) {
                None => None,
                Some(((appid, memo), e)) => {
                    if !(appid is Some && memo is Some) {
                        None
                    } else if !(0 <= e && e <= s.len()) {
                        None
                    } else {
                        let p = sp_ws(s, e);
                        if p == s.len() {
                            Some(
                                CreateAccountModel {
                                    appid: appid.unwrap(),
                                    memo: memo.unwrap(),
                                },
                            )
                        } else {
                            None
                        }
                    }
                },
            }
        }
    }
}

/// Decodes a create-call body back into its payload.
pub fn decode_create_payload(body: &str) -> (r: Option<CreateAccountData>)
    ensures
        match r {
            Some(d) => sp_create_payload_doc(body@) == Some(d@),
            None => sp_create_payload_doc(body@) is None,
        },
{
    let cs = to_chars(body);
    let s = cs.as_slice();
    let i0 = skip_ws(s, 0);
    if !(i0 < s.len() && s[i0] == '{') {
        return None;
    }
    let j = skip_ws(s, i0 + 1);
    if j < s.len() && s[j] == '}' {
        return None;
    }
    match create_payload_members(s, j, None, None) {
        None => None,
        Some(((appid, memo), e)) => {
            if appid.is_some() && memo.is_some() {
                let p = skip_ws(s, e);
                if p == s.len() {
                    Some(CreateAccountData { appid: appid.unwrap(), memo: memo.unwrap() })
                } else {
                    None
                }
            } else {
                None
            }
        },
    }
}

/// Walks the members of a reset-call body: `steamid`, an unsigned 64-bit
/// number; unknown fields skipped.
pub open spec fn sp_reset_payload_members(s: Seq<char>, i: int, sid: Option<u64>)
    -> Option<(Option<u64>, int)>
    decreases s.len() - i when 0 <= i <= s.len()
{
    if !(i < s.len() && s[i] == '"') {
        None
    } else {
        match sp_string_body(s, i + 1) {
            None => None,
            Some((key, j)) => {
                if !(i + 1 < j && j <= s.len()) {
                    None
                } else {
                    let k = sp_ws(s, j);
                    if !(j <= k && k < s.len() && s[k] == ':') {
                        None
                    } else {
                        let m = sp_ws(s, k + 1);
                        if !(k + 1 <= m && m <= s.len()) {
                            None
                        } else {
                            let stepped: Option<(Option<u64>, int)> = if key == "steamid"@ {
                                if sid is Some {
                                    None
                                } else {
                                    match sp_u64_at(s, m) {
                                        Some((v, ve)) => Some((Some(v), ve)),
                                        None => None,
                                    }
                                }
                            } else {
                                match sp_skip_value(s, m) {
                                    Some(ve) => Some((sid, ve)),
                                    None => None,
                                }
                            };
                            match stepped {
                                None => None,
                                Some((acc2, ve)) => {
                                    if !(m < ve && ve <= s.len()) {
                                        None
                                    } else {
                                        let p = sp_ws(s, ve);
                                        if !(ve <= p && p <= s.len()) {
                                            None
                                        } else if p < s.len() && s[p] == ',' {
                                            let q = sp_ws(s, p + 1);
                                            if !(p + 1 <= q && q <= s.len()) {
                                                None
                                            } else {
                                                sp_reset_payload_members(s, q, acc2)
                                            }
                                        } else if p < s.len() && s[p] == '}' {
                                            Some((acc2, p + 1))
                                        } else {
                                            None
                                        }
                                    }
                                },
                            }
                        }
                    }
                }
            },
        }
    }
}

/// Walks reset-body members; mirrors `sp_reset_payload_members`.
fn reset_payload_members(s: &[char], i: usize, sid: Option<u64>)
    -> (r: Option<(Option<u64>, usize)>)
    requires
        i <= s@.len(),
    ensures
        match r {
            Some((rs, j)) => sp_reset_payload_members(s@, i as int, sid) == Some(
                (rs, j as int),
            ) && i < j && j <= s@.len(),
            None => sp_reset_payload_members(s@, i as int, sid) is None,
        },
    decreases s@.len() - i,
{
    if !(i < s.len() && s[i] == '"') {
        return None;
    }
    match string_body(s, i + 1) {
        None => None,
        Some((key, j)) => {
            let k = skip_ws(s, j);
            if !(k < s.len() && s[k] == ':') {
                return None;
            }
            let m = skip_ws(s, k + 1);
            let stepped: Option<(Option<u64>, usize)> = if key_is(&key, "steamid") {
                if sid.is_some() {
                    None
                } else {
                    match u64_at(s, m) {
                        Some((v, ve)) => Some((Some(v), ve)),
                        None => None,
                    }
                }
            } else {
                match skip_value(s, m) {
                    Some(ve) => Some((sid, ve)),
                    None => None,
                }
            };
            match stepped {
                None => None,
                Some((acc2, ve)) => {
                    let p = skip_ws(s, ve);
                    if p < s.len() && s[p] == ',' {
                        let q = skip_ws(s, p + 1);
                        reset_payload_members(s, q, acc2)
                    } else if p < s.len() && s[p] == '}' {
                        Some((acc2, p + 1))
                    } else {
                        None
                    }
                },
            }
        },
    }
}

/// The reset-call payload a whole document denotes.
pub open spec fn sp_reset_payload_doc(s: Seq<char>) -> Option<u64> {
    let i0 = sp_ws(s, 0);
    if !(0 <= i0 && i0 <= s.len()) {
        None
    } else if !(i0 < s.len() && s[i0] == '{') {
        None
    } else {
        let j = sp_ws(s, i0 + 1);
        if !(i0 + 1 <= j && j <= s.len()) {
            None
        } else if j < s.len() && s[j] == '}' {
            None
        } else {
            match sp_reset_payload_members(s, j, None) {
                None => None,
                Some((sid, e)) => {
                    if !(sid is Some) {
                        None
                    } else if !(0 <= e && e <= s.len()) {
                        None
                    } else {
                        let p = sp_ws(s, e);
                        if p == s.len() {
                            sid
                        } else {
                            None
                        }
                    }
                },
            }
        }
    }
}

/// Decodes a reset-call body back into its payload.
pub fn decode_reset_payload(body: &str) -> (r: Option<crate::model::ResetData>)
    ensures
        match r {
            Some(d) => sp_reset_payload_doc(body@) == Some(d.steamid),
            None => sp_reset_payload_doc(body@) is None,
        },
{
    let cs = to_chars(body);
    let s = cs.as_slice();
    let i0 = skip_ws(s, 0);
    if !(i0 < s.len() && s[i0] == '{') {
        return None;
    }
    let j = skip_ws(s, i0 + 1);
    if j < s.len() && s[j] == '}' {
        return None;
    }
    match reset_payload_members(s, j, None) {
        None => None,
        Some((sid, e)) => {
            match sid {
                Some(v) => {
                    let p = skip_ws(s, e);
                    if p == s.len() {
                        Some(crate::model::ResetData { steamid: v })
                    } else {
                        None
                    }
                },
                None => None,
            }
        },
    }
}

/// `c` stands for itself inside a JSON string.
pub open spec fn plain_char(c: char) -> bool {
    c != '"' && c != '\\' && (c as u32) >= 32
}

/// A string of plain characters escapes to itself.
pub proof fn lemma_escape_plain(m: Seq<char>)
    requires
        forall|i: int| 0 <= i < m.len() ==> plain_char(m[i]),
    ensures
        escape(m) == m,
    decreases m.len(),
{
    if m.len() == 0 {
        assert(escape(m) =~= m);
    } else {
        assert(plain_char(m[0]));
        assert(escape_char(m[0]) =~= seq![m[0]]);
        lemma_escape_plain(m.skip(1));
        assert(escape(m) =~= m);
    }
}

/// A JSON string body holding the escape of `m` and then a closing quote
/// reads back as exactly `m`.
pub proof fn lemma_string_body_escaped(s: Seq<char>, i: int, m: Seq<char>)
    requires
        0 <= i,
        i + escape(m).len() + 1 <= s.len(),
        forall|k: int| 0 <= k < escape(m).len() ==> s[i + k] == escape(m)[k],
        s[i + escape(m).len()] == '"',
    ensures
        sp_string_body(s, i) == Some((m, i + escape(m).len() + 1)),
    decreases m.len(),
{
    if m.len() == 0 {
        assert(escape(m).len() == 0);
        assert(s[i] == '"');
    } else {
        let c = m[0];
        let ec = escape_char(c);
        let rest = escape(m.skip(1));
        assert(escape(m) == ec + rest);
        assert forall|k: int| 0 <= k < ec.len() implies s[i + k] == ec[k] by {
            assert(escape(m)[k] == ec[k]);
        }
        let i2 = i + ec.len();
        assert forall|k: int| 0 <= k < rest.len() implies s[i2 + k] == rest[k] by {
            assert(escape(m)[ec.len() + k] == rest[k]);
            assert(s[i + (ec.len() + k)] == escape(m)[ec.len() + k]);
        }
        assert(s[i2 + rest.len()] == '"');
        lemma_string_body_escaped(s, i2, m.skip(1));
        assert(seq![c] + m.skip(1) =~= m);
        if c == '"' {
            assert(s[i] == '\\' && s[i + 1] == '"');
        } else if c == '\\' {
            assert(s[i] == '\\' && s[i + 1] == '\\');
        } else if c == '\u{8}' {
            assert(s[i] == '\\' && s[i + 1] == 'b');
        } else if c == '\t' {
            assert(s[i] == '\\' && s[i + 1] == 't');
        } else if c == '\n' {
            assert(s[i] == '\\' && s[i + 1] == 'n');
        } else if c == '\u{c}' {
            assert(s[i] == '\\' && s[i + 1] == 'f');
        } else if c == '\r' {
            assert(s[i] == '\\' && s[i + 1] == 'r');
        } else if (c as u32) < 32 {
            let v = c as u32;
            assert(s[i] == '\\' && s[i + 1] == 'u' && s[i + 2] == '0' && s[i + 3] == '0');
            assert(s[i + 4] == hex_char((v / 16) as nat));
            assert(s[i + 5] == hex_char((v % 16) as nat));
            crate::text::lemma_hex_char_val((v / 16) as nat);
            crate::text::lemma_hex_char_val((v % 16) as nat);
            assert(hex4_ok(s, i + 2));
            assert(hex4_val(s, i + 2) == (v / 16) * 16 + (v % 16)) by {
                assert(crate::text::hex_val('0') == 0);
            }
            assert((v / 16) * 16 + (v % 16) == v) by {
                vstd::arithmetic::div_mod::lemma_fundamental_div_mod(v as int, 16);
            }
            assert(hex4_val(s, i + 2) == v as nat);
            vstd::utf8::char_u32_cast(c, v);
            assert(((v as nat) as u32) as char == c);
        } else {
            assert(plain_char(c));
            assert(s[i] == c);
        }
    }
}

/// Encoding a reset payload and decoding it back yields the same steamid.
pub proof fn lemma_reset_roundtrip(steamid: u64)
    ensures
        sp_reset_payload_doc(sp_encode_reset(steamid)) == Some(steamid),
{
    reveal_strlit("{\"steamid\":");
    reveal_strlit("}");
    reveal_strlit("steamid");
    let a = "{\"steamid\":"@;
    let d = dec_digits(steamid as nat);
    let b = "}"@;
    let s = sp_encode_reset(steamid);
    crate::text::lemma_dec_digits_val(steamid as nat);
    crate::text::lemma_dec_digits_head(steamid as nat);
    let dlen = d.len() as int;
    assert(a.len() == 11);
    assert(s.len() == 12 + dlen);
    assert(s[0] == '{');
    assert(s[1] == '"');
    assert(s[10] == ':');
    assert forall|t: int| 0 <= t < dlen implies s[11 + t] == d[t] by {}
    assert(s[11 + dlen] == '}');
    assert(sp_ws(s, 0) == 0);
    assert(sp_ws(s, 1) == 1);
    assert forall|k: int| 0 <= k < 7 implies plain_char("steamid"@[k]) by {}
    lemma_escape_plain("steamid"@);
    assert forall|k: int| 0 <= k < 7 implies s[2 + k] == "steamid"@[k] by {}
    assert(s[9] == '"');
    lemma_string_body_escaped(s, 2, "steamid"@);
    assert(sp_string_body(s, 2) == Some(("steamid"@, 10int)));
    assert(sp_ws(s, 10) == 10);
    assert(is_digit(d[0]));
    assert(!is_ws(s[11]));
    assert(sp_ws(s, 11) == 11);
    assert(!is_digit(s[11 + dlen]));
    crate::json::lemma_digits_end_value(s, 11, 11 + dlen);
    assert(s.subrange(11, 11 + dlen) =~= d);
    assert(dec_val(d) == steamid as nat);
    if s[11] == '0' && 11 + dlen > 12 {
        assert(d[0] == '0');
        assert(steamid == 0);
        assert(dlen == 1);
        assert(false);
    }
    assert(sp_u64_at(s, 11) == Some((steamid, 11 + dlen)));
    assert(!is_ws(s[11 + dlen]));
    assert(sp_ws(s, 11 + dlen) == 11 + dlen);
    assert(sp_reset_payload_members(s, 1, None) == Some((Some(steamid), 12 + dlen)));
    assert(sp_ws(s, 12 + dlen) == 12 + dlen);
    assert(sp_reset_payload_doc(s) == Some(steamid));
}

/// Encoding a create payload and decoding it back yields the same
/// appid and memo.
#[verifier::rlimit(50)]
pub proof fn lemma_create_roundtrip(appid: u32, memo: Seq<char>)
    ensures
        sp_create_payload_doc(sp_encode_create(appid, memo)) == Some(
            CreateAccountModel { appid, memo },
        ),
{
    reveal_strlit("{\"appid\":");
    reveal_strlit(",\"memo\":\"");
    reveal_strlit("\"}");
    reveal_strlit("appid");
    reveal_strlit("memo");
    let a1 = "{\"appid\":"@;
    let d = dec_digits(appid as nat);
    let a2 = ",\"memo\":\""@;
    let e = escape(memo);
    let a3 = "\"}"@;
    let s = sp_encode_create(appid, memo);
    crate::text::lemma_dec_digits_val(appid as nat);
    crate::text::lemma_dec_digits_head(appid as nat);
    let dlen = d.len() as int;
    let elen = e.len() as int;
    assert(a1.len() == 9);
    assert(a2.len() == 9);
    assert(a3.len() == 2);
    assert(s.len() == 20 + dlen + elen);
    assert(s[0] == '{');
    assert(s[1] == '"');
    assert(s[8] == ':');
    assert forall|t: int| 0 <= t < dlen implies s[9 + t] == d[t] by {}
    assert(s[9 + dlen] == ',');
    assert(s[10 + dlen] == '"');
    assert(s[15 + dlen] == '"');
    assert(s[16 + dlen] == ':');
    assert(s[17 + dlen] == '"');
    assert forall|t: int| 0 <= t < elen implies s[18 + dlen + t] == e[t] by {}
    assert(s[18 + dlen + elen] == '"');
    assert(s[19 + dlen + elen] == '}');
    assert(sp_ws(s, 0) == 0);
    assert(sp_ws(s, 1) == 1);
    assert forall|k: int| 0 <= k < 5 implies plain_char("appid"@[k]) by {}
    lemma_escape_plain("appid"@);
    assert forall|k: int| 0 <= k < 5 implies s[2 + k] == "appid"@[k] by {}
    assert(s[7] == '"');
    lemma_string_body_escaped(s, 2, "appid"@);
    assert(sp_string_body(s, 2) == Some(("appid"@, 8int)));
    assert(sp_ws(s, 8) == 8);
    assert(is_digit(d[0]));
    assert(!is_ws(s[9]));
    assert(sp_ws(s, 9) == 9);
    assert(!is_digit(s[9 + dlen]));
    crate::json::lemma_digits_end_value(s, 9, 9 + dlen);
    assert(s.subrange(9, 9 + dlen) =~= d);
    assert(dec_val(d) == appid as nat);
    if s[9] == '0' && 9 + dlen > 10 {
        assert(d[0] == '0');
        assert(appid == 0);
        assert(dlen == 1);
        assert(false);
    }
    assert(sp_u64_at(s, 9) == Some((appid as u64, 9 + dlen)));
    assert(sp_u32_at(s, 9) == Some((appid, 9 + dlen)));
    assert("appid"@ != "memo"@) by {
        assert("appid"@.len() != "memo"@.len());
    }
    assert(!is_ws(s[9 + dlen]));
    assert(sp_ws(s, 9 + dlen) == 9 + dlen);
    assert(sp_ws(s, 10 + dlen) == 10 + dlen);
    assert forall|k: int| 0 <= k < 4 implies plain_char("memo"@[k]) by {}
    lemma_escape_plain("memo"@);
    assert forall|k: int| 0 <= k < 4 implies s[11 + dlen + k] == "memo"@[k] by {}
    lemma_string_body_escaped(s, 11 + dlen, "memo"@);
    assert(sp_string_body(s, 11 + dlen) == Some(("memo"@, 16 + dlen)));
    assert(sp_ws(s, 16 + dlen) == 16 + dlen);
    assert(sp_ws(s, 17 + dlen) == 17 + dlen);
    assert forall|k: int| 0 <= k < elen implies s[(18 + dlen) + k] == e[k] by {}
    lemma_string_body_escaped(s, 18 + dlen, memo);
    assert(sp_string_body(s, 18 + dlen) == Some((memo, 19 + dlen + elen)));
    assert(sp_string_value(s, 17 + dlen) == Some((memo, 19 + dlen + elen)));
    assert(sp_ws(s, 19 + dlen + elen) == 19 + dlen + elen);
    assert(sp_create_payload_members(s, 10 + dlen, Some(appid), None) == Some(
        ((Some(appid), Some(memo)), 20 + dlen + elen),
    ));
    assert(sp_create_payload_members(s, 1, None, None) == Some(
        ((Some(appid), Some(memo)), 20 + dlen + elen),
    ));
    assert(sp_ws(s, 20 + dlen + elen) == 20 + dlen + elen);
    assert(sp_create_payload_doc(s) == Some(CreateAccountModel { appid, memo }));
}

} // verus!
