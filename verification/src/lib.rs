//! A verified client library for managing Game Server License Tokens
//! against the remote game-server service: list the account's servers,
//! classify the (appid, memo) lookup, and prepare the create or reset call
//! whose token the caller prints.
//!
//! Every decision the tool makes is proved here: the scan and its
//! tie-break (`workflow`), the JSON grammar with its decoders and encoders
//! (`json`, `codec`), the request construction (`service`), and the error
//! taxonomy with its exit codes (`model`). The surrounding process only
//! reads configuration, sends the prepared requests, and hands the
//! response bodies back.

pub mod codec;
pub mod json;
pub mod model;
pub mod service;
pub mod text;
pub mod workflow;
