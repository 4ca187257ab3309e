//! Data model: game-server records as returned by the remote service, the
//! classification of a lookup, the actions a run can take, and the error
//! taxonomy with its process exit codes.
use vstd::prelude::*;

verus! {

/// A single game server as reported by the account-list endpoint.
pub struct GameServer {
    pub steamid: String,
    pub appid: u32,
    pub login_token: String,
    pub memo: String,
    pub is_deleted: bool,
    pub is_expired: bool,
    pub rt_last_logon: u32,
}

/// Mathematical image of a `GameServer`: strings become character sequences.
pub ghost struct GameServerModel {
    pub steamid: Seq<char>,
    pub appid: u32,
    pub login_token: Seq<char>,
    pub memo: Seq<char>,
    pub is_deleted: bool,
    pub is_expired: bool,
    pub rt_last_logon: u32,
}

impl View for GameServer {
    type V = GameServerModel;

    open spec fn view(&self) -> GameServerModel {
        GameServerModel {
            steamid: self.steamid@,
            appid: self.appid,
            login_token: self.login_token@,
            memo: self.memo@,
            is_deleted: self.is_deleted,
            is_expired: self.is_expired,
            rt_last_logon: self.rt_last_logon,
        }
    }
}

/// The models of a sequence of records.
pub open spec fn views_of(servers: Seq<GameServer>) -> Seq<GameServerModel> {
    servers.map_values(|g: GameServer| g@)
}

/// The account-list payload: the servers plus account metadata that the
/// workflow ignores but the decoder still requires, as the remote sends it.
pub struct GetAccountListResponse {
    pub servers: Vec<GameServer>,
    pub is_banned: bool,
    pub expires: i64,
    pub actor: String,
    pub last_action_time: i64,
}

/// Mathematical image of `GetAccountListResponse`.
pub ghost struct AccountListModel {
    pub servers: Seq<GameServerModel>,
    pub is_banned: bool,
    pub expires: i64,
    pub actor: Seq<char>,
    pub last_action_time: i64,
}

impl View for GetAccountListResponse {
    type V = AccountListModel;

    open spec fn view(&self) -> AccountListModel {
        AccountListModel {
            servers: views_of(self.servers@),
            is_banned: self.is_banned,
            expires: self.expires,
            actor: self.actor@,
            last_action_time: self.last_action_time,
        }
    }
}

/// The create-account payload: the new account and its token.
pub struct CreateServerResponse {
    pub steamid: String,
    pub login_token: String,
}

/// Mathematical image of `CreateServerResponse`.
pub ghost struct CreateRespModel {
    pub steamid: Seq<char>,
    pub login_token: Seq<char>,
}

impl View for CreateServerResponse {
    type V = CreateRespModel;

    open spec fn view(&self) -> CreateRespModel {
        CreateRespModel { steamid: self.steamid@, login_token: self.login_token@ }
    }
}

/// The reset-token payload: the renewed token.
pub struct ResetServerResponse {
    pub login_token: String,
}

/// Mathematical image of `ResetServerResponse`.
pub ghost struct ResetRespModel {
    pub login_token: Seq<char>,
}

impl View for ResetServerResponse {
    type V = ResetRespModel;

    open spec fn view(&self) -> ResetRespModel {
        ResetRespModel { login_token: self.login_token@ }
    }
}

/// The body sent to the create endpoint.
pub struct CreateAccountData {
    pub appid: u32,
    pub memo: String,
}

/// Mathematical image of `CreateAccountData`.
pub ghost struct CreateAccountModel {
    pub appid: u32,
    pub memo: Seq<char>,
}

impl View for CreateAccountData {
    type V = CreateAccountModel;

    open spec fn view(&self) -> CreateAccountModel {
        CreateAccountModel { appid: self.appid, memo: self.memo@ }
    }
}

/// The body sent to the reset endpoint.
pub struct ResetData {
    pub steamid: u64,
}

/// Outcome of scanning the server list for an (appid, memo) pair.
pub enum ParsingResult {
    /// A live matching record exists; carries its current token.
    Found(String),
    /// No record matches.
    NotFound,
    /// A matching record exists but its token expired; carries its steamid.
    Expired(String),
}

/// Mathematical image of `ParsingResult`.
pub ghost enum ParsingResultModel {
    Found(Seq<char>),
    NotFound,
    Expired(Seq<char>),
}

impl View for ParsingResult {
    type V = ParsingResultModel;

    open spec fn view(&self) -> ParsingResultModel {
        match self {
            ParsingResult::Found(t) => ParsingResultModel::Found(t@),
            ParsingResult::NotFound => ParsingResultModel::NotFound,
            ParsingResult::Expired(s) => ParsingResultModel::Expired(s@),
        }
    }
}

/// What the workflow decides to do after classifying the server list.
pub enum Action {
    /// Print this already-valid token; no further remote call.
    UseToken(String),
    /// Call the create endpoint for the requested (appid, memo).
    CallCreate,
    /// Call the reset endpoint with this numeric steamid.
    CallReset(u64),
}

/// Mathematical image of `Action`.
pub ghost enum ActionModel {
    UseToken(Seq<char>),
    CallCreate,
    CallReset(u64),
}

impl View for Action {
    type V = ActionModel;

    open spec fn view(&self) -> ActionModel {
        match self {
            Action::UseToken(t) => ActionModel::UseToken(t@),
            Action::CallCreate => ActionModel::CallCreate,
            Action::CallReset(s) => ActionModel::CallReset(*s),
        }
    }
}

/// Every way a run can fail. None is recovered from: the entry point maps
/// each to its process exit code via `exit_code`.
#[derive(Debug)]
pub enum ApiError {
    /// The credential environment variable is missing or not text.
    Configuration,
    /// The HTTP request could not be sent.
    Transport,
    /// The remote answered with a non-success HTTP status.
    Remote(u16),
    /// A response was not the JSON shape the service documents.
    JsonDecode,
    /// A response body could not be read as text.
    BodyDecode,
    /// A matching record's steamid string is not an unsigned 64-bit number.
    SteamIdParse,
    /// A request payload could not be serialized.
    Encode,
}

/// Exit code owed to each failure kind; success exits 0.
pub open spec fn spec_exit_code(e: ApiError) -> i32 {
    match e {
        ApiError::Configuration => 1i32,
        ApiError::Remote(_) => 3i32,
        ApiError::JsonDecode => 4i32,
        ApiError::BodyDecode => 5i32,
        ApiError::SteamIdParse => 5i32,
        ApiError::Transport => 6i32,
        ApiError::Encode => 7i32,
    }
}

/// Exit code for each failure kind; success exits 0.
pub fn exit_code(e: &ApiError) -> (code: i32)
    ensures
        code == spec_exit_code(*e),
{
    match e {
        ApiError::Configuration => 1,
        ApiError::Remote(_) => 3,
        ApiError::JsonDecode => 4,
        ApiError::BodyDecode => 5,
        ApiError::SteamIdParse => 5,
        ApiError::Transport => 6,
        ApiError::Encode => 7,
    }
}

} // verus!
