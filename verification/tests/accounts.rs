use bnadmin::account::{
    add_user_authorised, check_exist, check_password_valid, check_username_valid,
    create_random_password, extract_stored_password, find_credential_file, password_from_number,
    prepare_user_record, render_user_template, verify_credentials_content, AddUserReq,
};
use bnadmin::commands::{report_attachment_supported, report_reason_label, CommandType};
use bnadmin::response::ResponseCode;

#[test]
fn username_validity() {
    assert!(check_username_valid("alice"));
    assert!(check_username_valid("[mH]peon.x_-"));
    assert!(!check_username_valid(""));
    assert!(!check_username_valid("abc"));
    assert!(!check_username_valid("bad name"));
    assert!(!check_username_valid("abcdefghijklmnopqrstu"));
    assert!(!check_username_valid("naïve"));
}

#[test]
fn password_validity() {
    assert!(check_password_valid("newpass1"));
    assert!(check_password_valid("ABCD"));
    assert!(!check_password_valid(""));
    assert!(!check_password_valid("abc"));
    assert!(!check_password_valid("pass word"));
    assert!(!check_password_valid("under_score"));
    assert!(!check_password_valid("abcdefghijklmnopqrstu"));
}

#[test]
fn password_rendering() {
    assert_eq!(password_from_number(42), "fate00000042");
    assert_eq!(password_from_number(0), "fate00000000");
    assert_eq!(password_from_number(99_999_999), "fate99999999");
    assert_eq!(password_from_number(12_345_678), "fate12345678");
}

#[test]
fn random_password_shape() {
    let p = create_random_password().expect("a password is always drawn");
    assert_eq!(p.len(), 12);
    assert!(p.starts_with("fate"));
    assert!(p[4..].chars().all(|c| c.is_ascii_digit()));
}

#[test]
fn template_rendering() {
    let template = b"id={{ userid }};name={{ username }};pw={{ password }}";
    let out = render_user_template(template, 11, "alice", "deadbeef");
    assert_eq!(out, b"id=11;name=alice;pw=deadbeef".to_vec());
}

#[test]
fn template_rendering_replaces_every_occurrence() {
    let template = b"{{ username }} and {{ username }}";
    let out = render_user_template(template, 1, "bob", "x");
    assert_eq!(out, b"bob and bob".to_vec());
}

#[test]
fn template_without_placeholders_unchanged() {
    let template = b"nothing to fill in";
    let out = render_user_template(template, 7, "alice", "h");
    assert_eq!(out, template.to_vec());
}

#[test]
fn prepare_user_record_fills_template() {
    let template = b"u={{ userid }};n={{ username }};p={{ password }}";
    let names: Vec<String> = vec!["bob".to_string()];
    let (pw, rec) = prepare_user_record(template, &names, "alice", 10).expect("record");
    let text = String::from_utf8(rec).expect("record stays text");
    // user id is 1 + offset + store size
    assert!(text.starts_with("u=12;n=alice;p="));
    let hash = &text["u=12;n=alice;p=".len()..];
    // the stored value is the hash, forty hex digits, not the password
    assert_eq!(hash.len(), 40);
    assert!(hash.chars().all(|c| c.is_ascii_hexdigit()));
    assert!(!text.contains(&pw));
    assert!(pw.starts_with("fate"));
}

#[test]
fn prepare_user_record_rejects_bad_name() {
    let template = b"x";
    let names: Vec<String> = vec![];
    assert_eq!(
        prepare_user_record(template, &names, "no spaces allowed", 0),
        Err(ResponseCode::InvalidInput)
    );
}

#[test]
fn prepare_user_record_rejects_clash() {
    let template = b"x";
    let names: Vec<String> = vec!["Alice".to_string()];
    match prepare_user_record(template, &names, "alice", 0) {
        Err(ResponseCode::UserIdTaken(n)) => assert_eq!(n, "Alice"),
        other => panic!("expected a clash, got {:?}", other),
    }
}

#[test]
fn existence_check_is_case_insensitive() {
    let names: Vec<String> = vec!["Alice".to_string(), "bob".to_string()];
    match check_exist(&names, "ALICE") {
        Err(ResponseCode::UserIdTaken(n)) => assert_eq!(n, "Alice"),
        other => panic!("expected a clash, got {:?}", other),
    }
    assert_eq!(check_exist(&names, "carol"), Ok(2));
}

#[test]
fn credential_file_lookup() {
    let names: Vec<String> = vec!["Alice".to_string(), "bob".to_string()];
    assert_eq!(find_credential_file(&names, "alice"), Ok("Alice".to_string()));
    assert_eq!(
        find_credential_file(&names, "carol"),
        Err(ResponseCode::NotRegistered)
    );
}

#[test]
fn stored_password_extraction() {
    let content = "\"BNET\\\\acct\\\\username\"=\"alice\"\n\"BNET\\\\acct\\\\passhash1\"=\"deadbeef\"\n";
    assert_eq!(extract_stored_password(content), Some(b"deadbeef".to_vec()));
    assert_eq!(extract_stored_password("no key here"), None);
    // an unclosed value never matches
    assert_eq!(extract_stored_password("\"BNET\\\\acct\\\\passhash1\"=\"oops"), None);
}

#[test]
fn credential_verification() {
    let content = "\"BNET\\\\acct\\\\passhash1\"=\"deadbeef\"";
    assert_eq!(verify_credentials_content(content, "deadbeef"), Ok(()));
    assert_eq!(
        verify_credentials_content(content, "wrong"),
        Err(ResponseCode::InvalidPasswordInput)
    );
    let empty = "\"BNET\\\\acct\\\\passhash1\"=\"\"";
    assert_eq!(
        verify_credentials_content(empty, "anything"),
        Err(ResponseCode::ServerError)
    );
    assert_eq!(
        verify_credentials_content("no key", "anything"),
        Err(ResponseCode::ServerError)
    );
}

#[test]
fn authorisation_code_check() {
    let req = AddUserReq { username: "alice".to_string(), valid_code: "sesame".to_string() };
    assert!(add_user_authorised(&req, "sesame"));
    assert!(!add_user_authorised(&req, "other"));
}

#[test]
fn response_code_keys() {
    assert_eq!(ResponseCode::AlreadyRegistered.to_i18n_key(), "already_registered");
    assert_eq!(ResponseCode::InvalidInput.to_i18n_key(), "invalid_input");
    assert_eq!(
        ResponseCode::UserIdTaken("x".to_string()).to_i18n_key(),
        "user_id_taken"
    );
    assert_eq!(ResponseCode::ServerError.to_i18n_key(), "server_error");
    assert_eq!(ResponseCode::RegisterSuccess.to_i18n_key(), "register_success");
    assert_eq!(ResponseCode::NotRegistered.to_i18n_key(), "not_registered");
    assert_eq!(ResponseCode::PasswordReset.to_i18n_key(), "password_reset");
    assert_eq!(ResponseCode::ReportInvalidInput.to_i18n_key(), "report_invalid_input");
    assert_eq!(ResponseCode::ReportSuccess.to_i18n_key(), "report_success");
    assert_eq!(ResponseCode::LinkSuccess.to_i18n_key(), "link_success");
    assert_eq!(ResponseCode::InvalidPasswordInput.to_i18n_key(), "invalid_password_input");
}

#[test]
fn command_type_names() {
    assert_eq!(CommandType::Register.as_str(), "register");
    assert_eq!(CommandType::FindAccount.as_str(), "find_account");
    assert_eq!(CommandType::LinkAccount.as_str(), "link_account");
    assert_eq!(CommandType::ChangePassword.as_str(), "chpass");
    assert_eq!(CommandType::Report.as_str(), "report");
    assert_eq!(CommandType::from_str("register"), Ok(CommandType::Register));
    assert_eq!(CommandType::from_str("chpass"), Ok(CommandType::ChangePassword));
    assert_eq!(CommandType::from_str("report"), Ok(CommandType::Report));
    assert_eq!(
        CommandType::from_str("no_such"),
        Err("unknown command".to_string())
    );
}

#[test]
fn report_attachment_kinds() {
    assert!(report_attachment_supported("Replay.W3G"));
    assert!(report_attachment_supported("shot.png"));
    assert!(report_attachment_supported("pic.IMG"));
    assert!(!report_attachment_supported("notes.txt"));
    assert!(!report_attachment_supported("png"));
    assert!(!report_attachment_supported(""));
}

#[test]
fn report_reason_labels() {
    assert_eq!(report_reason_label("game_leaving"), "Game Leaving");
    assert_eq!(report_reason_label("misconduct"), "Misconduct");
    assert_eq!(report_reason_label("something else"), "something else");
}
