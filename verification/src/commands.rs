//! The front end's command names and their mapping to and from text, and
//! the checks applied to a player report before it is forwarded.

use vstd::prelude::*;
use vstd::utf8::encode_utf8;
use crate::bytes::{bytes_eq, spec_lower, lower_bytes};

verus! {

/// The interactions the front end offers.
#[derive(Debug, Clone, Copy, PartialEq, Eq)]
pub enum CommandType {
    Register,
    FindAccount,
    LinkAccount,
    ChangePassword,
    Report,
}

impl CommandType {
    /// The name under which the interaction is registered.
    pub fn as_str(&self) -> (r: &'static str)
        ensures
            r@ == match self {
                CommandType::Register => "register"@,
                CommandType::FindAccount => "find_account"@,
                CommandType::LinkAccount => "link_account"@,
                CommandType::ChangePassword => "chpass"@,
                CommandType::Report => "report"@,
            },
    {
        match self {
            CommandType::Register => "register",
            CommandType::FindAccount => "find_account",
            CommandType::LinkAccount => "link_account",
            CommandType::ChangePassword => "chpass",
            CommandType::Report => "report",
        }
    }

    /// The interaction registered under the given name, or an error text
    /// for an unknown name.
    pub fn from_str(s: &str) -> (r: Result<CommandType, String>)
        ensures
            match r {
                Ok(c) => match c {
                    CommandType::Register => encode_utf8(s@) == encode_utf8("register"@),
                    CommandType::FindAccount => encode_utf8(s@) == encode_utf8("find_account"@),
                    CommandType::LinkAccount => encode_utf8(s@) == encode_utf8("link_account"@),
                    CommandType::ChangePassword => encode_utf8(s@) == encode_utf8("chpass"@),
                    CommandType::Report => encode_utf8(s@) == encode_utf8("report"@),
                },
                Err(m) => {
                    &&& m@ == "unknown command"@
                    &&& encode_utf8(s@) != encode_utf8("register"@)
                    &&& encode_utf8(s@) != encode_utf8("find_account"@)
                    &&& encode_utf8(s@) != encode_utf8("link_account"@)
                    &&& encode_utf8(s@) != encode_utf8("chpass"@)
                    &&& encode_utf8(s@) != encode_utf8("report"@)
                },
            },
    {
        let bs = s.as_bytes();
        if bytes_eq(bs, "register".as_bytes()) {
            Ok(CommandType::Register)
        } else if bytes_eq(bs, "find_account".as_bytes()) {
            Ok(CommandType::FindAccount)
        } else if bytes_eq(bs, "link_account".as_bytes()) {
            Ok(CommandType::LinkAccount)
        } else if bytes_eq(bs, "chpass".as_bytes()) {
            Ok(CommandType::ChangePassword)
        } else if bytes_eq(bs, "report".as_bytes()) {
            Ok(CommandType::Report)
        } else {
            Err("unknown command".to_owned())
        }
    }
}

/// `b` ends, case-insensitively under ASCII folding, in `suffix`.
pub open spec fn ends_ci(b: Seq<u8>, suffix: Seq<u8>) -> bool {
    b.len() >= suffix.len() && spec_lower(b).subrange(
        b.len() - suffix.len(),
        b.len() as int,
    ) == suffix
}

/// Whether the lowered bytes end in the given suffix.
fn ends_with_ci(b: &[u8], suffix: &[u8]) -> (r: bool)
    ensures
        r == ends_ci(b@, suffix@),
{
    let n = b.len();
    let m = suffix.len();
    if n < m {
        return false;
    }
    let low = lower_bytes(b);
    bytes_eq(&low.as_slice()[n - m..n], suffix)
}

/// Whether a report's attachment is of a kind the front end accepts:
/// a screenshot or a replay, by file extension, case-insensitively.
pub fn report_attachment_supported(filename: &str) -> (r: bool)
    ensures
        r == (ends_ci(encode_utf8(filename@), encode_utf8(".png"@)) || ends_ci(
            encode_utf8(filename@),
            encode_utf8(".img"@),
        ) || ends_ci(encode_utf8(filename@), encode_utf8(".w3g"@))),
{
    let bs = filename.as_bytes();
    ends_with_ci(bs, ".png".as_bytes()) || ends_with_ci(bs, ".img".as_bytes()) || ends_with_ci(
        bs,
        ".w3g".as_bytes(),
    )
}

/// The display label for a report reason: the two known codes get their
/// fixed labels, anything else is shown as it came.
pub fn report_reason_label(reason_code: &str) -> (r: String)
    ensures
        if encode_utf8(reason_code@) == encode_utf8("game_leaving"@) {
            r@ == "Game Leaving"@
        } else if encode_utf8(reason_code@) == encode_utf8("misconduct"@) {
            r@ == "Misconduct"@
        } else {
            r@ == reason_code@
        },
{
    let bs = reason_code.as_bytes();
    if bytes_eq(bs, "game_leaving".as_bytes()) {
        "Game Leaving".to_owned()
    } else if bytes_eq(bs, "misconduct".as_bytes()) {
        "Misconduct".to_owned()
    } else {
        reason_code.to_owned()
    }
}

} // verus!
