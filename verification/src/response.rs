//! Outcome codes reported to the front ends, and their translation keys.

use vstd::prelude::*;

verus! {

/// The outcomes that the account and administration operations report.
/// `UserIdTaken` carries the name of the existing entry that clashed.
#[derive(Debug, Clone, PartialEq, Eq)]
pub enum ResponseCode {
    AlreadyRegistered,
    InvalidInput,
    InvalidPasswordInput,
    UserIdTaken(String),
    ServerError,
    RegisterSuccess,
    NotRegistered,
    PasswordReset,
    ReportInvalidInput,
    ReportSuccess,
    LinkSuccess,
}

impl ResponseCode {
    /// The key under which the user-facing text for this code is looked up.
    pub fn to_i18n_key(&self) -> (r: &'static str)
        ensures
            r@ == match self {
                ResponseCode::AlreadyRegistered => "already_registered"@,
                ResponseCode::InvalidInput => "invalid_input"@,
                ResponseCode::InvalidPasswordInput => "invalid_password_input"@,
                ResponseCode::UserIdTaken(_) => "user_id_taken"@,
                ResponseCode::ServerError => "server_error"@,
                ResponseCode::RegisterSuccess => "register_success"@,
                ResponseCode::NotRegistered => "not_registered"@,
                ResponseCode::PasswordReset => "password_reset"@,
                ResponseCode::ReportInvalidInput => "report_invalid_input"@,
                ResponseCode::ReportSuccess => "report_success"@,
                ResponseCode::LinkSuccess => "link_success"@,
            },
    {
        match self {
            ResponseCode::AlreadyRegistered => "already_registered",
            ResponseCode::InvalidInput => "invalid_input",
            ResponseCode::InvalidPasswordInput => "invalid_password_input",
            ResponseCode::UserIdTaken(_) => "user_id_taken",
            ResponseCode::ServerError => "server_error",
            ResponseCode::RegisterSuccess => "register_success",
            ResponseCode::NotRegistered => "not_registered",
            ResponseCode::PasswordReset => "password_reset",
            ResponseCode::ReportInvalidInput => "report_invalid_input",
            ResponseCode::ReportSuccess => "report_success",
            ResponseCode::LinkSuccess => "link_success",
        }
    }
}

} // verus!
