//! The workflow controller's decision logic: scan the server list for the
//! requested (appid, memo) pair, classify the outcome, and pick the next
//! remote action. The surrounding process performs the actions; everything
//! decided here is proved.
use vstd::prelude::*;

use crate::model::{views_of, Action, ActionModel, ApiError, GameServer, GameServerModel,
    ParsingResult, ParsingResultModel};
use crate::text::{all_digits, dec_val, parse_u64, str_eq};

verus! {

/// The record is the one looked for: both fields equal, memo compared
/// case-sensitively with no normalization.
pub open spec fn server_matches(s: GameServerModel, appid: u32, memo: Seq<char>) -> bool {
    s.appid == appid && s.memo == memo
}

/// Classification of a server list against an (appid, memo) pair: the first
/// matching record wins, later duplicates are ignored; no match is
/// `NotFound`; a match is `Expired` with its steamid when its token expired,
/// else `Found` with its token.
pub open spec fn classify(servers: Seq<GameServerModel>, appid: u32, memo: Seq<char>)
    -> ParsingResultModel
    decreases servers.len(),
{
    if servers.len() == 0 {
        ParsingResultModel::NotFound
    } else if server_matches(servers[0], appid, memo) {
        if servers[0].is_expired {
            ParsingResultModel::Expired(servers[0].steamid)
        } else {
            ParsingResultModel::Found(servers[0].login_token)
        }
    } else {
        classify(servers.skip(1), appid, memo)
    }
}

/// Scans the list for the first record matching (appid, memo) and
/// classifies it.
pub fn parse_server_list(servers: &[GameServer], appid: u32, memo: &str) -> (r: ParsingResult)
    ensures
        r@ == classify(views_of(servers@), appid, memo@),
{
    let ghost vs = views_of(servers@);
    proof {
        assert(vs.skip(0) =~= vs);
    }
    let n = servers.len();
    let mut i: usize = 0;
    while i < n
        invariant
            i <= n,
            n == servers@.len(),
            vs == views_of(servers@),
            classify(vs, appid, memo@) == classify(vs.skip(i as int), appid, memo@),
        decreases n - i,
    {
        let s = &servers[i];
        proof {
            assert(vs.skip(i as int)[0] == vs[i as int]);
        }
        if s.appid == appid && str_eq(s.memo.as_str(), memo) {
            if s.is_expired {
                return ParsingResult::Expired(s.steamid.clone());
            } else {
                return ParsingResult::Found(s.login_token.clone());
            }
        }
        proof {
            assert(vs.skip(i as int).skip(1) =~= vs.skip(i as int + 1));
        }
        i += 1;
    }
    proof {
        assert(vs.skip(n as int) =~= Seq::<GameServerModel>::empty());
    }
    ParsingResult::NotFound
}

/// The action owed for each classification: use a found token as it is,
/// create when nothing matched, reset after reading the expired record's
/// steamid as an unsigned 64-bit number — or fail when that string is not
/// numeric.
pub open spec fn spec_decide(r: ParsingResultModel) -> Result<ActionModel, ApiError> {
    match r {
        ParsingResultModel::Found(t) => Ok(ActionModel::UseToken(t)),
        ParsingResultModel::NotFound => Ok(ActionModel::CallCreate),
        ParsingResultModel::Expired(sid) => {
            if sid.len() > 0 && all_digits(sid) && dec_val(sid) <= u64::MAX {
                Ok(ActionModel::CallReset(dec_val(sid) as u64))
            } else {
                Err(ApiError::SteamIdParse)
            }
        },
    }
}

/// Picks the next action for a classification.
pub fn decide(r: &ParsingResult) -> (a: Result<Action, ApiError>)
    ensures
        match a {
            Ok(act) => spec_decide(r@) == Ok::<ActionModel, ApiError>(act@),
            Err(e) => spec_decide(r@) == Err::<ActionModel, ApiError>(e),
        },
{
    match r {
        ParsingResult::Found(t) => Ok(Action::UseToken(t.clone())),
        ParsingResult::NotFound => Ok(Action::CallCreate),
        ParsingResult::Expired(sid) => {
            match parse_u64(sid.as_str()) {
                Some(n) => Ok(Action::CallReset(n)),
                None => Err(ApiError::SteamIdParse),
            }
        },
    }
}

/// Scans the list and picks the next action in one step: the decision core
/// of a run, between the list call and the optional second remote call.
pub fn plan_from_list(servers: &[GameServer], appid: u32, memo: &str)
    -> (a: Result<Action, ApiError>)
    ensures
        match a {
            Ok(act) => spec_decide(classify(views_of(servers@), appid, memo@))
                == Ok::<ActionModel, ApiError>(act@),
            Err(e) => spec_decide(classify(views_of(servers@), appid, memo@))
                == Err::<ActionModel, ApiError>(e),
        },
{
    let r = parse_server_list(servers, appid, memo);
    decide(&r)
}

/// The classification is `NotFound` — and the planned action is a create
/// call — exactly when no record in the list matches (appid, memo).
pub proof fn lemma_create_iff_no_match(servers: Seq<GameServerModel>, appid: u32, memo: Seq<char>)
    ensures
        (classify(servers, appid, memo) is NotFound
            <==> forall|i: int| 0 <= i < servers.len()
                ==> !server_matches(servers[i], appid, memo)),
        (spec_decide(classify(servers, appid, memo)) == Ok::<ActionModel, ApiError>(
            ActionModel::CallCreate,
        ) <==> forall|i: int| 0 <= i < servers.len()
            ==> !server_matches(servers[i], appid, memo)),
    decreases servers.len(),
{
    if servers.len() == 0 {
    } else if server_matches(servers[0], appid, memo) {
    } else {
        lemma_create_iff_no_match(servers.skip(1), appid, memo);
        let rest = servers.skip(1);
        if classify(servers, appid, memo) is NotFound {
            assert forall|i: int| 0 <= i < servers.len()
                implies !server_matches(servers[i], appid, memo) by {
                if i > 0 {
                    assert(rest[i - 1] == servers[i]);
                }
            }
        } else {
            assert(!(forall|j: int| 0 <= j < rest.len()
                ==> !server_matches(rest[j], appid, memo)));
            let j = choose|j: int| 0 <= j < rest.len()
                && server_matches(rest[j], appid, memo);
            assert(servers[j + 1] == rest[j]);
            assert(!(forall|i: int| 0 <= i < servers.len()
                ==> !server_matches(servers[i], appid, memo)));
        }
    }
}

/// When position `i` holds the first matching record, the classification is
/// decided by that record alone.
pub proof fn lemma_classify_first_match(
    servers: Seq<GameServerModel>,
    appid: u32,
    memo: Seq<char>,
    i: int,
)
    requires
        0 <= i < servers.len(),
        server_matches(servers[i], appid, memo),
        forall|j: int| 0 <= j < i ==> !server_matches(servers[j], appid, memo),
    ensures
        classify(servers, appid, memo) == (if servers[i].is_expired {
            ParsingResultModel::Expired(servers[i].steamid)
        } else {
            ParsingResultModel::Found(servers[i].login_token)
        }),
    decreases i,
{
    if i > 0 {
        let rest = servers.skip(1);
        assert(rest[i - 1] == servers[i]);
        assert forall|j: int| 0 <= j < i - 1 implies !server_matches(rest[j], appid, memo) by {
            assert(rest[j] == servers[j + 1]);
        }
        lemma_classify_first_match(rest, appid, memo, i - 1);
    }
}

/// If exactly one record matches and its token is live, the scan returns
/// `Found` with that record's token unchanged, and the planned action is to
/// use that token: no create or reset call follows.
pub proof fn lemma_unique_live_match_found(
    servers: Seq<GameServerModel>,
    appid: u32,
    memo: Seq<char>,
    i: int,
)
    requires
        0 <= i < servers.len(),
        server_matches(servers[i], appid, memo),
        !servers[i].is_expired,
        forall|j: int| 0 <= j < servers.len() && j != i
            ==> !server_matches(servers[j], appid, memo),
    ensures
        classify(servers, appid, memo) == ParsingResultModel::Found(servers[i].login_token),
        spec_decide(classify(servers, appid, memo)) == Ok::<ActionModel, ApiError>(
            ActionModel::UseToken(servers[i].login_token),
        ),
{
    lemma_classify_first_match(servers, appid, memo, i);
}

/// If exactly one record matches and its token is expired, the scan returns
/// `Expired` with that record's steamid, and the planned action is a reset
/// call with that steamid read as a number — never a create call.
pub proof fn lemma_unique_expired_match_resets(
    servers: Seq<GameServerModel>,
    appid: u32,
    memo: Seq<char>,
    i: int,
)
    requires
        0 <= i < servers.len(),
        server_matches(servers[i], appid, memo),
        servers[i].is_expired,
        forall|j: int| 0 <= j < servers.len() && j != i
            ==> !server_matches(servers[j], appid, memo),
    ensures
        classify(servers, appid, memo) == ParsingResultModel::Expired(servers[i].steamid),
        servers[i].steamid.len() > 0 && all_digits(servers[i].steamid)
            && dec_val(servers[i].steamid) <= u64::MAX
            ==> spec_decide(classify(servers, appid, memo))
                == Ok::<ActionModel, ApiError>(ActionModel::CallReset(
                    dec_val(servers[i].steamid) as u64,
                )),
        !(servers[i].steamid.len() > 0 && all_digits(servers[i].steamid)
            && dec_val(servers[i].steamid) <= u64::MAX)
            ==> spec_decide(classify(servers, appid, memo))
                == Err::<ActionModel, ApiError>(ApiError::SteamIdParse),
{
    lemma_classify_first_match(servers, appid, memo, i);
}

/// An empty server list always plans a create call, never a reset and never
/// an existing token.
pub proof fn lemma_empty_list_creates(servers: Seq<GameServerModel>, appid: u32, memo: Seq<char>)
    requires
        servers.len() == 0,
    ensures
        classify(servers, appid, memo) is NotFound,
        spec_decide(classify(servers, appid, memo)) == Ok::<ActionModel, ApiError>(
            ActionModel::CallCreate,
        ),
{
}

} // verus!
