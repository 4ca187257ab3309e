//! The service client's half that can be reasoned about: preparing each of
//! the three remote calls — address, query and body — exactly as the remote's
//! calling convention asks. Sending is left to the surrounding process, which
//! hands the response body back to the decoders in `codec`.
use vstd::prelude::*;

use vstd::string::StringExecFns;

use crate::codec::{format_create_json, format_reset_json, sp_encode_create, sp_encode_reset};

verus! {

/// HTTP verb of a prepared call.
pub enum HttpMethod {
    Get,
    Post,
}

/// One fully prepared API call. The credential always rides in the query
/// under `key`; a body, when present, rides in the query under
/// `input_json`, not in the HTTP body — the remote's calling convention,
/// preserved exactly for wire compatibility.
pub struct ApiRequest {
    pub url: String,
    pub query: Vec<(String, String)>,
    pub method: HttpMethod,
}

/// Client of the remote game-server service: holds the credential and the
/// base address of the endpoint family, and prepares each call.
pub struct GameServersService {
    pub apitoken: String,
    pub baseurl: String,
}

impl GameServersService {
    /// A client for the given credential, aimed at the service's address.
    pub fn new(apitoken: &str) -> (s: GameServersService)
        ensures
            s.apitoken@ == apitoken@,
            s.baseurl@ == "http://api.steampowered.com/IGameServersService/"@,
    {
        GameServersService {
            apitoken: String::from_str(apitoken),
            baseurl: String::from_str("http://api.steampowered.com/IGameServersService/"),
        }
    }

    /// Prepares a call to `path` under the base address: the credential as
    /// the first query pair, the body, if any, as the second.
    pub fn build_request(&self, path: &str, input_json: Option<String>, method: HttpMethod)
        -> (r: ApiRequest)
        ensures
            r.url@ == self.baseurl@ + path@,
            r.method == method,
            r.query@.len() == (if input_json is Some { 2int } else { 1int }),
            r.query@[0].0@ == "key"@,
            r.query@[0].1@ == self.apitoken@,
            input_json is Some ==> r.query@[1].0@ == "input_json"@ && r.query@[1].1@
                == input_json.unwrap()@,
    {
        let mut url = self.baseurl.clone();
        url.append(path);
        let mut query: Vec<(String, String)> = Vec::new();
        query.push((String::from_str("key"), self.apitoken.clone()));
        match input_json {
            Some(v) => {
                query.push((String::from_str("input_json"), v));
            },
            None => {},
        }
        ApiRequest { url, query, method }
    }

    /// Prepares the list call: a GET with no body.
    pub fn get_server_list_request(&self) -> (r: ApiRequest)
        ensures
            r.url@ == self.baseurl@ + "/GetAccountList/v1"@,
            r.method is Get,
            r.query@.len() == 1,
            r.query@[0].0@ == "key"@,
            r.query@[0].1@ == self.apitoken@,
    {
        self.build_request("/GetAccountList/v1", None, HttpMethod::Get)
    }

    /// Prepares the create call: a POST whose body names the requested
    /// (appid, memo).
    pub fn create_server_request(&self, appid: u32, memo: &str) -> (r: ApiRequest)
        ensures
            r.url@ == self.baseurl@ + "/CreateAccount/v1"@,
            r.method is Post,
            r.query@.len() == 2,
            r.query@[0].0@ == "key"@,
            r.query@[0].1@ == self.apitoken@,
            r.query@[1].0@ == "input_json"@,
            r.query@[1].1@ == sp_encode_create(appid, memo@),
    {
        let body = format_create_json(appid, memo);
        self.build_request("/CreateAccount/v1", Some(body), HttpMethod::Post)
    }

    /// Prepares the reset call: a POST whose body names the steamid.
    pub fn reset_token_request(&self, steamid: u64) -> (r: ApiRequest)
        ensures
            r.url@ == self.baseurl@ + "/ResetLoginToken/v1"@,
            r.method is Post,
            r.query@.len() == 2,
            r.query@[0].0@ == "key"@,
            r.query@[0].1@ == self.apitoken@,
            r.query@[1].0@ == "input_json"@,
            r.query@[1].1@ == sp_encode_reset(steamid),
    {
        let body = format_reset_json(steamid);
        self.build_request("/ResetLoginToken/v1", Some(body), HttpMethod::Post)
    }
}

} // verus!
