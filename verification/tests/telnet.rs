use bnadmin::handshake::{
    handshake_step, run_handshake, CredentialWrite, HandshakeAction, HandshakeOutcome,
};
use bnadmin::session::{reader_on_chunk, send_begin, send_timeout, SlotState};
use bnadmin::wire::{classify_response, change_password_outcome, ApiResult, Command};
use bnadmin::response::ResponseCode;

#[test]
fn handshake_scripted_login() {
    let chunks: Vec<Vec<u8>> = vec![
        b"Username:".to_vec(),
        b"Password:".to_vec(),
        b"Hello, welcome".to_vec(),
    ];
    let run = run_handshake(&chunks);
    assert_eq!(run.outcome, HandshakeOutcome::Ready);
    assert_eq!(run.writes, vec![CredentialWrite::Username, CredentialWrite::Password]);
}

#[test]
fn login_failed_stops_handshake() {
    let chunks: Vec<Vec<u8>> = vec![b"Username:".to_vec(), b"Login failed.".to_vec()];
    let run = run_handshake(&chunks);
    assert_eq!(run.outcome, HandshakeOutcome::AuthFailed);
    assert_eq!(run.writes, vec![CredentialWrite::Username]);
}

#[test]
fn handshake_repeated_prompts_answered_each_time() {
    let chunks: Vec<Vec<u8>> = vec![
        b"Username:".to_vec(),
        b"Username:".to_vec(),
        b"Password:".to_vec(),
        b"Hello".to_vec(),
    ];
    let run = run_handshake(&chunks);
    assert_eq!(run.outcome, HandshakeOutcome::Ready);
    assert_eq!(
        run.writes,
        vec![CredentialWrite::Username, CredentialWrite::Username, CredentialWrite::Password]
    );
}

#[test]
fn handshake_closed_on_empty_read() {
    let chunks: Vec<Vec<u8>> = vec![b"Username:".to_vec(), b"".to_vec()];
    let run = run_handshake(&chunks);
    assert_eq!(run.outcome, HandshakeOutcome::ConnectionClosed);
    assert_eq!(run.writes, vec![CredentialWrite::Username]);
}

#[test]
fn handshake_exhausted_script_counts_as_closed() {
    let chunks: Vec<Vec<u8>> = vec![b"Username:".to_vec()];
    let run = run_handshake(&chunks);
    assert_eq!(run.outcome, HandshakeOutcome::ConnectionClosed);
}

#[test]
fn handshake_step_order_and_case() {
    assert_eq!(handshake_step(b"USERNAME:"), HandshakeAction::SendUsername);
    assert_eq!(handshake_step(b"Password:"), HandshakeAction::SendPassword);
    assert_eq!(handshake_step(b"LOGIN FAILED."), HandshakeAction::Fail);
    assert_eq!(handshake_step(b"Hello there"), HandshakeAction::Done);
    assert_eq!(handshake_step(b""), HandshakeAction::Closed);
    assert_eq!(handshake_step(b"motd of the day"), HandshakeAction::Ignore);
    // the failure check wins over every prompt, and a prompt wins over the
    // greeting, in the fixed evaluation order
    assert_eq!(handshake_step(b"username: login failed."), HandshakeAction::Fail);
    assert_eq!(handshake_step(b"hello, enter username:"), HandshakeAction::SendUsername);
    assert_eq!(handshake_step(b"hello, password:"), HandshakeAction::SendPassword);
}

#[test]
fn command_encodings() {
    assert_eq!(
        Command::Ban("alice".to_string(), 3600, "abuse".to_string()).encode(),
        b"/lock alice 3600 abuse".to_vec()
    );
    assert_eq!(
        Command::IPBan("10.0.0.7".to_string(), 60).encode(),
        b"/ipban a 10.0.0.7 60".to_vec()
    );
    assert_eq!(
        Command::ChangePassword("alice".to_string(), "newpass1".to_string()).encode(),
        b"/chpass alice newpass1".to_vec()
    );
    assert_eq!(Command::Unban("bob".to_string()).encode(), b"/unlock bob".to_vec());
    assert_eq!(
        Command::Ban("alice".to_string(), 60, "bad actor".to_string()).encode(),
        b"/lock alice 60 bad actor".to_vec()
    );
    assert_eq!(
        Command::UnIPBan("10.0.0.7".to_string()).encode(),
        b"/ipban d 10.0.0.7".to_vec()
    );
    assert_eq!(
        Command::Unban("bob".to_string()).wire_line(),
        b"/unlock bob\r\n".to_vec()
    );
}

#[test]
fn classify_distinguishes_empty_from_nonempty() {
    assert_eq!(
        classify_response(b"anything"),
        ApiResult::Success("Command Finished".to_string())
    );
    assert_eq!(classify_response(b""), ApiResult::Error("Command Finished".to_string()));
}

#[test]
fn busy_while_in_flight() {
    let mut slot = SlotState::new();
    let first = send_begin(&mut slot, &Command::Unban("bob".to_string()));
    assert!(first.is_ok());
    let second = send_begin(&mut slot, &Command::Unban("carl".to_string()));
    match second {
        Err(ApiResult::Error(m)) => assert_eq!(m, "busy"),
        _ => panic!("second command must observe busy"),
    }
}

#[test]
fn timeout_clears_slot_for_next_command() {
    let mut slot = SlotState::new();
    let (ticket, _) = send_begin(&mut slot, &Command::Unban("bob".to_string())).unwrap();
    let outcome = send_timeout(&mut slot, ticket);
    assert_eq!(outcome, ApiResult::Timeout);
    // the slot is free again: the next call is not rejected as busy
    assert!(send_begin(&mut slot, &Command::Unban("carl".to_string())).is_ok());
}

#[test]
fn stray_chunk_discarded_and_next_command_clean() {
    let mut slot = SlotState::new();
    // force a timeout, then push a late chunk from the fake server
    let (ticket, _) = send_begin(&mut slot, &Command::Unban("bob".to_string())).unwrap();
    let _ = send_timeout(&mut slot, ticket);
    assert_eq!(reader_on_chunk(&mut slot, b"late reply"), None);
    // the discarded chunk does not corrupt the next command's result
    let (t2, _) = send_begin(&mut slot, &Command::Unban("carl".to_string())).unwrap();
    match reader_on_chunk(&mut slot, b"fresh reply") {
        Some((t, ApiResult::Success(m))) => {
            assert_eq!(t, t2);
            assert_eq!(m, "Command Finished");
        },
        other => panic!("expected the new ticket to resolve, got {:?}", other),
    }
}

#[test]
fn ticket_resolves_exactly_once() {
    let mut slot = SlotState::new();
    let (ticket, _) = send_begin(&mut slot, &Command::Unban("bob".to_string())).unwrap();
    // the reader resolves it ...
    let resolved = reader_on_chunk(&mut slot, b"ok");
    assert!(matches!(resolved, Some((t, _)) if t == ticket));
    // ... after which neither path can resolve it again
    assert_eq!(reader_on_chunk(&mut slot, b"again"), None);
    let late_timeout = send_timeout(&mut slot, ticket);
    assert_eq!(late_timeout, ApiResult::Timeout);
    // and the slot is still clean for the next command
    assert!(send_begin(&mut slot, &Command::Unban("carl".to_string())).is_ok());
}

#[test]
fn round_trip_change_password() {
    let mut slot = SlotState::new();
    let cmd = Command::ChangePassword("alice".to_string(), "newpass1".to_string());
    let (ticket, line) = send_begin(&mut slot, &cmd).unwrap();
    assert_eq!(line, b"/chpass alice newpass1\r\n".to_vec());
    // the fake server echoes a non-empty acknowledgement
    match reader_on_chunk(&mut slot, b"password changed") {
        Some((t, ApiResult::Success(m))) => {
            assert_eq!(t, ticket);
            assert_eq!(m, "Command Finished");
        },
        other => panic!("expected success, got {:?}", other),
    }
    // an echoed empty acknowledgement yields an error instead
    let (t2, _) = send_begin(&mut slot, &cmd).unwrap();
    match reader_on_chunk(&mut slot, b"") {
        Some((t, ApiResult::Error(m))) => {
            assert_eq!(t, t2);
            assert_eq!(m, "Command Finished");
        },
        other => panic!("expected error, got {:?}", other),
    }
}

#[test]
fn change_password_outcome_follows_result() {
    let ok = change_password_outcome(
        ApiResult::Success("Command Finished".to_string()),
        "alice".to_string(),
    );
    assert_eq!(ok, Ok("alice".to_string()));
    let err = change_password_outcome(ApiResult::Timeout, "alice".to_string());
    assert_eq!(err, Err(ResponseCode::ServerError));
    let err2 = change_password_outcome(
        ApiResult::Error("Command Finished".to_string()),
        "alice".to_string(),
    );
    assert_eq!(err2, Err(ResponseCode::ServerError));
}
