use bnadmin::config::{validate_config, Config};
use bnadmin::room::{parse_room_log, parse_u16, split_commas};
use bnadmin::w3x::{analysis_w3x_name, map_upload_magic_ok};

fn map_bytes(name_part: &[u8]) -> Vec<u8> {
    let mut v = b"HM3W\x00\x00\x00\x00".to_vec();
    v.extend_from_slice(name_part);
    v
}

#[test]
fn map_name_plain() {
    let bytes = map_bytes(b"MyMap\x00junk after nul");
    let info = analysis_w3x_name("file.w3x".to_string(), &bytes);
    assert_eq!(info.name, "file.w3x");
    assert_eq!(info.map_name, "MyMap");
}

#[test]
fn map_name_without_nul_runs_to_end() {
    let bytes = map_bytes(b"NoTerminator");
    let info = analysis_w3x_name("f".to_string(), &bytes);
    assert_eq!(info.map_name, "NoTerminator");
}

#[test]
fn map_name_markup_stripped() {
    let bytes = map_bytes(b"|cFFFF0000Red|r Map\x00");
    let info = analysis_w3x_name("f".to_string(), &bytes);
    assert_eq!(info.map_name, "Red Map");
}

#[test]
fn map_name_short_colour_code_stays() {
    let bytes = map_bytes(b"Name|cFF\x00");
    let info = analysis_w3x_name("f".to_string(), &bytes);
    assert_eq!(info.map_name, "Name|cFF");
}

#[test]
fn map_name_invalid_bytes_become_replacement() {
    let bytes = map_bytes(b"A\xFFB\x00");
    let info = analysis_w3x_name("f".to_string(), &bytes);
    assert_eq!(info.map_name, "A\u{FFFD}B");
}

#[test]
fn map_magic() {
    assert!(map_upload_magic_ok(b"HM3Wrest of file"));
    assert!(!map_upload_magic_ok(b"PK\x03\x04zip"));
}

#[test]
fn split_on_commas() {
    let f = split_commas("a,b,,c");
    assert_eq!(f, vec!["a", "b", "", "c"]);
    assert_eq!(split_commas(""), vec![""]);
    assert_eq!(split_commas("lone"), vec!["lone"]);
}

#[test]
fn parse_room_ids() {
    assert_eq!(parse_u16("0"), Some(0));
    assert_eq!(parse_u16("65535"), Some(65535));
    assert_eq!(parse_u16("000042"), Some(42));
    assert_eq!(parse_u16("65536"), None);
    assert_eq!(parse_u16("99999999999"), None);
    assert_eq!(parse_u16(""), None);
    assert_eq!(parse_u16("+1"), None);
    assert_eq!(parse_u16("12a"), None);
}

#[test]
fn room_roster_counts_players() {
    let lines: Vec<String> = vec![
        "GAME,1,Lobby".to_string(),
        "join,x,y,z,1".to_string(),
        "join,x,y,z,1".to_string(),
        "GAME,2,Arena".to_string(),
        "join,x,y,z,2".to_string(),
        "join,x,y,z,9".to_string(),
        "something else entirely".to_string(),
    ];
    let rooms = parse_room_log(&lines);
    assert_eq!(rooms.len(), 2);
    assert_eq!(rooms[0].room_id, 1);
    assert_eq!(rooms[0].room_name, "Lobby");
    assert_eq!(rooms[0].player_count, 2);
    assert_eq!(rooms[1].room_id, 2);
    assert_eq!(rooms[1].room_name, "Arena");
    assert_eq!(rooms[1].player_count, 1);
}

#[test]
fn room_roster_sorted_by_id() {
    let lines: Vec<String> = vec!["GAME,5,Five".to_string(), "GAME,2,Two".to_string()];
    let rooms = parse_room_log(&lines);
    assert_eq!(rooms[0].room_id, 2);
    assert_eq!(rooms[1].room_id, 5);
}

#[test]
fn room_reopened_resets_count() {
    let lines: Vec<String> = vec![
        "GAME,1,Old".to_string(),
        "join,x,y,z,1".to_string(),
        "GAME,1,New".to_string(),
    ];
    let rooms = parse_room_log(&lines);
    assert_eq!(rooms.len(), 1);
    assert_eq!(rooms[0].room_name, "New");
    assert_eq!(rooms[0].player_count, 0);
}

#[test]
fn room_bad_id_line_ignored() {
    let lines: Vec<String> = vec!["GAME,abc,Bad".to_string()];
    assert_eq!(parse_room_log(&lines).len(), 0);
}

fn good_config() -> Config {
    Config {
        user_data_path: "users".to_string(),
        bn_log_path: "bn.log".to_string(),
        valid_code: "code".to_string(),
        map_path: "maps".to_string(),
        map_valid_code: "mapcode".to_string(),
        db_path: "db.sqlite".to_string(),
        discord_token: "dummy-token".to_string(),
        discord_server_id: 1,
        discord_report_channel_id: 2,
        uid_offset: 0,
        bn_server: "localhost:8888".to_string(),
        bn_username: "admin".to_string(),
        bn_password: "hunter2".to_string(),
    }
}

#[test]
fn config_validation() {
    assert!(validate_config(&good_config(), true, true, true));
    assert!(!validate_config(&good_config(), false, true, true));
    assert!(!validate_config(&good_config(), true, false, true));
    assert!(!validate_config(&good_config(), true, true, false));
    let mut c = good_config();
    c.discord_token = "".to_string();
    assert!(!validate_config(&c, true, true, true));
    let mut c = good_config();
    c.uid_offset = -1;
    assert!(!validate_config(&c, true, true, true));
    let mut c = good_config();
    c.discord_server_id = 0;
    assert!(!validate_config(&c, true, true, true));
    let mut c = good_config();
    c.bn_log_path = "".to_string();
    assert!(!validate_config(&c, true, true, true));
}
