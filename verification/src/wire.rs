//! The administrative commands and their wire encoding, and the
//! classification of raw response chunks.
//!
//! The protocol is a plain text line protocol: each command is one line,
//! arguments separated by single spaces, terminated by CRLF, with no
//! escaping and no framing beyond the line break.

use vstd::prelude::*;
use vstd::utf8::encode_utf8;
use crate::bytes::{spec_dec, u64_to_dec};

verus! {

/// One administrative action, with its canonical line encoding.
#[derive(Debug, Clone, PartialEq, Eq)]
pub enum Command {
    /// Lock an account: user name, duration, reason.
    Ban(String, u32, String),
    /// Ban an address: address, duration.
    IPBan(String, u32),
    /// Set a new password: user name, password.
    ChangePassword(String, String),
    /// Unlock an account.
    Unban(String),
    /// Lift an address ban.
    UnIPBan(String),
}

/// The UTF-8 bytes of the command line, without the terminator.
pub open spec fn spec_encode(c: Command) -> Seq<u8> {
    match c {
        Command::Ban(user, dur, reason) => encode_utf8("/lock "@) + encode_utf8(user@)
            + encode_utf8(" "@) + spec_dec(dur as nat) + encode_utf8(" "@) + encode_utf8(reason@),
        Command::IPBan(ip, dur) => encode_utf8("/ipban a "@) + encode_utf8(ip@) + encode_utf8(" "@)
            + spec_dec(dur as nat),
        Command::ChangePassword(user, password) => encode_utf8("/chpass "@) + encode_utf8(user@)
            + encode_utf8(" "@) + encode_utf8(password@),
        Command::Unban(user) => encode_utf8("/unlock "@) + encode_utf8(user@),
        Command::UnIPBan(ip) => encode_utf8("/ipban d "@) + encode_utf8(ip@),
    }
}

/// The bytes put on the socket for the command: its line and CRLF.
pub open spec fn spec_wire_line(c: Command) -> Seq<u8> {
    spec_encode(c) + encode_utf8("\r\n"@)
}

impl Command {
    /// The canonical line encoding of the command, without the terminator.
    pub fn encode(&self) -> (r: Vec<u8>)
        ensures
            r@ == spec_encode(*self),
    {
        let mut out: Vec<u8> = Vec::new();
        match self {
            Command::Ban(user, dur, reason) => {
                out.extend_from_slice("/lock ".as_bytes());
                out.extend_from_slice(user.as_str().as_bytes());
                out.extend_from_slice(" ".as_bytes());
                let d = u64_to_dec(*dur as u64);
                out.extend_from_slice(d.as_slice());
                out.extend_from_slice(" ".as_bytes());
                out.extend_from_slice(reason.as_str().as_bytes());
            },
            Command::IPBan(ip, dur) => {
                out.extend_from_slice("/ipban a ".as_bytes());
                out.extend_from_slice(ip.as_str().as_bytes());
                out.extend_from_slice(" ".as_bytes());
                let d = u64_to_dec(*dur as u64);
                out.extend_from_slice(d.as_slice());
            },
            Command::ChangePassword(user, password) => {
                out.extend_from_slice("/chpass ".as_bytes());
                out.extend_from_slice(user.as_str().as_bytes());
                out.extend_from_slice(" ".as_bytes());
                out.extend_from_slice(password.as_str().as_bytes());
            },
            Command::Unban(user) => {
                out.extend_from_slice("/unlock ".as_bytes());
                out.extend_from_slice(user.as_str().as_bytes());
            },
            Command::UnIPBan(ip) => {
                out.extend_from_slice("/ipban d ".as_bytes());
                out.extend_from_slice(ip.as_str().as_bytes());
            },
        }
        assert(out@ =~= spec_encode(*self));
        out
    }

    /// The command line followed by CRLF, ready for the socket.
    pub fn wire_line(&self) -> (r: Vec<u8>)
        ensures
            r@ == spec_wire_line(*self),
    {
        let mut out = self.encode();
        out.extend_from_slice("\r\n".as_bytes());
        out
    }
}

/// The outcome of one command attempt, as handed back to the caller.
/// The response text itself is not propagated: the reader only
/// distinguishes "got something" from "got nothing".
#[derive(Debug, Clone, PartialEq, Eq)]
pub enum ApiResult {
    Success(String),
    Error(String),
    Timeout,
}

/// `r` is the result that a response chunk with bytes `chunk` resolves to:
/// an empty chunk gives an error, a non-empty chunk success, both carrying
/// the fixed completion message.
pub open spec fn is_classified(chunk: Seq<u8>, r: ApiResult) -> bool {
    match r {
        ApiResult::Success(m) => chunk.len() > 0 && m@ == "Command Finished"@,
        ApiResult::Error(m) => chunk.len() == 0 && m@ == "Command Finished"@,
        ApiResult::Timeout => false,
    }
}

/// Resolves a response chunk: an empty chunk to `Error`, a non-empty one
/// to `Success`, both with the fixed completion message.
pub fn classify_response(chunk: &[u8]) -> (r: ApiResult)
    ensures
        is_classified(chunk@, r),
{
    if chunk.len() == 0 {
        ApiResult::Error("Command Finished".to_owned())
    } else {
        ApiResult::Success("Command Finished".to_owned())
    }
}

/// What a password change reports to its caller, given the command's
/// result: the account name on success, a server error on anything else.
pub fn change_password_outcome(resp: ApiResult, username: String) -> (r: Result<
    String,
    crate::response::ResponseCode,
>)
    ensures
        match resp {
            ApiResult::Success(_) => r matches Ok(u) && u@ == username@,
            _ => r == Err::<String, crate::response::ResponseCode>(
                crate::response::ResponseCode::ServerError,
            ),
        },
{
    match resp {
        ApiResult::Success(_) => Ok(username),
        _ => Err(crate::response::ResponseCode::ServerError),
    }
}

} // verus!
