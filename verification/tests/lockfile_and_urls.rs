use osskins::downloads::build_skin_download_url;
use osskins::league_dir::{detect_from_registry, detect_in_common_paths, validate_selected_directory};
use osskins::lockfile::{basic_auth_header, find_lockfile, get_auth_from_lockfile, parse_lockfile, split_chars};

#[test]
fn lockfile_port_and_token() {
    let r = parse_lockfile("LeagueClient:1234:54321:secret-token:https");
    assert_eq!(r, Some(("54321".to_string(), "secret-token".to_string())));
}

#[test]
fn download_url_for_base_skin() {
    assert_eq!(
        build_skin_download_url(103, 103001, None, None),
        "https://raw.githubusercontent.com/Alban1911/LeagueSkins/main/skins/103/103001/103001.zip"
    );
}

#[test]
fn lockfile_with_too_few_fields() {
    assert_eq!(parse_lockfile("LeagueClient:1234:54321:token"), None);
    assert_eq!(get_auth_from_lockfile("a:b:c"), Err("Failed to parse lockfile".to_string()));
    assert_eq!(get_auth_from_lockfile("n:1:2:t:https:extra"), Ok(("2".to_string(), "t".to_string())));
}

#[test]
fn splitting_keeps_empty_fields() {
    assert_eq!(split_chars("a::b", ':'), vec!["a", "", "b"]);
    assert_eq!(split_chars("", ':'), vec![""]);
    assert_eq!(split_chars(":", ':'), vec!["", ""]);
}

#[test]
fn missing_lockfile() {
    assert_eq!(
        find_lockfile("/nonexistent/osskins/game/folder"),
        Err("Lockfile not found. Is League of Legends running?".to_string())
    );
}

#[test]
fn basic_auth_is_base64_of_riot_and_token() {
    assert_eq!(basic_auth_header("secret"), "Basic cmlvdDpzZWNyZXQ=");
    assert_eq!(basic_auth_header(""), "Basic cmlvdDo=");
}

#[test]
fn folder_dialog_answers() {
    assert_eq!(validate_selected_directory(false, "C:\\Games"), Err("Directory selection cancelled".to_string()));
    assert_eq!(validate_selected_directory(true, "  \r\n"), Err("No directory selected".to_string()));
    assert_eq!(validate_selected_directory(true, ""), Err("No directory selected".to_string()));
    assert_eq!(
        validate_selected_directory(true, "  /nonexistent/osskins/folder \n"),
        Err("Selected directory does not appear to be a valid League of Legends installation".to_string())
    );
}

#[test]
fn install_detection_without_an_install() {
    assert_eq!(detect_in_common_paths(), None);
    assert_eq!(detect_from_registry(true, " \n"), Err("League of Legends installation not found".to_string()));
    assert_eq!(detect_from_registry(false, "C:\\Riot Games"), Err("League of Legends installation not found".to_string()));
    assert_eq!(detect_from_registry(true, "/nonexistent/osskins"), Err("League of Legends installation not found".to_string()));
}
