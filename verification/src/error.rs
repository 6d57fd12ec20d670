use vstd::prelude::*;

verus! {

/// A setting the bot reads from its environment.
#[derive(Clone, Copy, Debug, PartialEq, Eq, Structural)]
pub enum Setting {
    /// `RPC_ENDPOINT`, the URI of the JSON-RPC service.
    RpcEndpoint,
    /// `LACHUOI_TOKEN`, the token for the JSON-RPC service.
    Token,
    /// `APP_ID`, the numeric id of the task.
    AppId,
}

/// What can go wrong in a run of the bot.
#[derive(Debug)]
pub enum BotError {
    /// A setting that the JSON-RPC service needs is not set.
    MissingSetting(Setting),
    /// `APP_ID` is not a decimal `i64`.
    InvalidAppId,
    /// The JSON-RPC service answered with an error member (its JSON text).
    RpcFailure(String),
    /// The JSON-RPC service answered with neither a result nor an error.
    MissingRpcResult,
    /// The feed is not an RSS document.
    FeedUnreadable,
    /// A date cannot be written in the format the message needs.
    DateNotWritable,
    /// An HTTP exchange failed (the description of the failure).
    Transport(String),
    /// A JSON text could not be read or written (the description).
    Encoding(String),
    /// The local storage file could not be written (the description).
    Storage(String),
}

} // verus!
