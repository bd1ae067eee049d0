use osskins::config::{SavedConfig, SkinData};
use osskins::downloads::data_update_without_remote;
use osskins::flow::party_inbox_check_due;
use osskins::league_dir::{
    common_client_probes, detect_from_registry, install_probes, install_verdict, pick_common_path, registry_directory,
    registry_verdict, selected_directory, validate_selected_directory,
};
use osskins::lockfile::{basic_auth_header, lockfile_from_probes, lockfile_probes, paths_exist};
use osskins::party::received_skin_key;
use osskins::settings::get_skin_name_from_config;

fn placed(r: &str, dir: &str, name: &str) -> bool {
    r == format!("{}{}", dir, name) || r == format!("{}/{}", dir, name) || r == format!("{}\\{}", dir, name)
}

#[test]
fn received_keys_tell_pairs_apart() {
    assert_eq!(received_skin_key("a_1", 2), "a_1_2");
    assert_eq!(received_skin_key("a", 12), "a_12");
    assert_ne!(received_skin_key("a_1", 2), received_skin_key("a", 12));
    assert_ne!(received_skin_key("a_1", 2), received_skin_key("a_12", 0));
}

#[test]
fn trimming_follows_unicode_white_space() {
    assert_eq!(selected_directory(true, "\u{a0}\tC:\\Games\\LoL \u{2028}"), Ok("C:\\Games\\LoL".to_string()));
    assert_eq!(selected_directory(true, " \u{3000}\u{85}\n"), Err("No directory selected".to_string()));
    assert_eq!(selected_directory(false, "C:\\x"), Err("Directory selection cancelled".to_string()));
    assert_eq!(
        validate_selected_directory(true, " /nonexistent/osskins-dir "),
        Err("Selected directory does not appear to be a valid League of Legends installation".to_string())
    );
    assert_eq!(registry_directory(true, "\u{2003}D:\\Riot\r\n"), Some("D:\\Riot".to_string()));
    assert_eq!(registry_directory(true, "  "), None);
    assert_eq!(registry_directory(false, "D:\\Riot"), None);
    assert_eq!(detect_from_registry(true, "/nonexistent/osskins-dir"), Err("League of Legends installation not found".to_string()));
}

#[test]
fn install_folder_probes_and_verdicts() {
    let (client, game) = install_probes("/opt/lol");
    assert!(placed(&client, "/opt/lol", "LeagueClient.exe"));
    assert!(game.ends_with("League of Legends.exe"));
    assert!(game.starts_with("/opt/lol"));
    assert!(game.contains("Game"));
    assert_eq!(install_verdict("/opt/lol".to_string(), false, true), Ok("/opt/lol".to_string()));
    assert_eq!(install_verdict("/opt/lol".to_string(), true, false), Ok("/opt/lol".to_string()));
    assert_eq!(
        install_verdict("/opt/lol".to_string(), false, false),
        Err("Selected directory does not appear to be a valid League of Legends installation".to_string())
    );
    assert_eq!(registry_verdict("/opt/lol".to_string(), true), Ok("/opt/lol".to_string()));
    assert_eq!(registry_verdict("/opt/lol".to_string(), false), Err("League of Legends installation not found".to_string()));
}

#[test]
fn common_install_probes_and_choice() {
    let probes = common_client_probes();
    assert_eq!(probes.len(), 3);
    assert!(placed(&probes[0], "C:\\Riot Games\\League of Legends", "LeagueClient.exe"));
    assert!(placed(&probes[2], "C:\\Program Files (x86)\\Riot Games\\League of Legends", "LeagueClient.exe"));
    assert_eq!(pick_common_path(&vec![false, true, true]), Some("C:\\Program Files\\Riot Games\\League of Legends".to_string()));
    assert_eq!(pick_common_path(&vec![true, false, false]), Some("C:\\Riot Games\\League of Legends".to_string()));
    assert_eq!(pick_common_path(&vec![false, false, false]), None);
}

#[test]
fn lockfile_probes_and_choice() {
    let probes = lockfile_probes("/games/lol");
    assert_eq!(probes.len(), 3);
    assert!(placed(&probes[0], "/games/lol", "lockfile"));
    assert!(placed(&probes[1], "/games/lol", "LeagueClientUx.lockfile"));
    assert!(placed(&probes[2], "/games/lol", "LeagueClient.lockfile"));
    assert_eq!(lockfile_from_probes(&probes, &vec![false, false, true]), Ok(probes[2].clone()));
    assert_eq!(lockfile_from_probes(&probes, &vec![false, true, true]), Ok(probes[1].clone()));
    assert_eq!(
        lockfile_from_probes(&probes, &vec![false, false, false]),
        Err("Lockfile not found. Is League of Legends running?".to_string())
    );
    assert_eq!(paths_exist(&probes), vec![false, false, false]);
}

#[test]
fn skin_names_from_archive_paths() {
    let mut c = SavedConfig::default();
    c.skins = vec![
        SkinData { champion_id: 103, skin_id: 103001, chroma_id: None, skin_file: Some("skins/ahri/Arcade Ahri.zip".to_string()) },
        SkinData { champion_id: 1, skin_id: 1001, chroma_id: None, skin_file: Some("annie/Goth.Annie.fantome".to_string()) },
        SkinData { champion_id: 2, skin_id: 2001, chroma_id: None, skin_file: Some(".hidden".to_string()) },
        SkinData { champion_id: 3, skin_id: 3001, chroma_id: None, skin_file: Some("plain".to_string()) },
    ];
    assert_eq!(get_skin_name_from_config(&c, 103, 103001), Some("Arcade Ahri".to_string()));
    assert_eq!(get_skin_name_from_config(&c, 1, 1001), Some("Goth.Annie".to_string()));
    assert_eq!(get_skin_name_from_config(&c, 2, 2001), Some(".hidden".to_string()));
    assert_eq!(get_skin_name_from_config(&c, 3, 3001), Some("plain".to_string()));
}

#[test]
fn data_update_without_asking() {
    let r = data_update_without_remote(false).unwrap();
    assert!(r.success);
    assert_eq!(r.error, None);
    assert_eq!(r.updated_champions, vec!["all".to_string()]);
    assert_eq!(data_update_without_remote(true), None);
}

#[test]
fn party_inbox_poll_gate() {
    let mut last = 1000u64;
    assert!(!party_inbox_check_due(&mut last, 2499));
    assert_eq!(last, 1000);
    assert!(party_inbox_check_due(&mut last, 2500));
    assert_eq!(last, 2500);
    assert!(!party_inbox_check_due(&mut last, 100));
    assert_eq!(last, 2500);
}

#[test]
fn auth_header_of_multibyte_token() {
    assert_eq!(basic_auth_header("t\u{f6}\u{20ac}\u{1f600}"), "Basic cmlvdDp0w7bigqzwn5iA");
    assert_eq!(basic_auth_header(""), "Basic cmlvdDo=");
    assert_eq!(basic_auth_header("a"), "Basic cmlvdDph");
}
