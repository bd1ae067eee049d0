use osskins::config::{select_skin_for_champion, CustomSkinData, SavedConfig, SkinData};
use osskins::friends::{conversation_after_creation, conversation_after_probe, friend_pid_or_error, ConversationNext};
use osskins::json::{Json, JsonNumber};
use osskins::league_dir::detect_in_common_paths;
use osskins::lobby::{extract_lobby_champions, extract_lobby_champions_for_mode, is_multi_champion_mode};
use osskins::lockfile::{find_lockfile, first_existing};
use osskins::misc::MiscItem;
use osskins::party::InMemoryReceivedSkin;
use osskins::settings::skin_name_from_stem;
use osskins::signature::{compute_instant_assign_signature, compute_party_injection_signature};
use osskins::skin_paths::friend_skin_candidates;
use osskins::watcher::{assign_watcher_instance_id, record_reinjection_time, start_champ_select_session_at, WatcherState};

fn obj(members: Vec<(&str, Json)>) -> Json {
    Json::Object(members.into_iter().map(|(k, v)| (k.to_string(), v)).collect())
}

fn num(n: u64) -> Json {
    Json::Number(JsonNumber::PosInt(n))
}

fn custom(id: &str, champion_id: u32) -> CustomSkinData {
    CustomSkinData { id: id.to_string(), name: id.to_string(), champion_id, file_path: format!("/m/{}.zip", id), created_at: 0 }
}

fn skin(champion_id: u32, skin_id: u32, chroma_id: Option<u32>) -> SkinData {
    SkinData { champion_id, skin_id, chroma_id, skin_file: None }
}

fn received(from: &str, champion_id: u32, skin_id: u32) -> InMemoryReceivedSkin {
    InMemoryReceivedSkin {
        from_summoner_id: from.to_string(),
        from_summoner_name: "F".to_string(),
        champion_id,
        skin_id,
        chroma_id: None,
        fantome_path: None,
        received_at: 0,
    }
}

#[test]
fn one_selection_per_champion() {
    let mut c = SavedConfig::default();
    c.custom_skins = vec![custom("old", 1)];
    select_skin_for_champion(&mut c, 1, Some(skin(1, 1001, None)), Some(custom("new", 1)));
    assert_eq!(c.skins, vec![skin(1, 1001, None)]);
    assert!(c.custom_skins.is_empty());
    select_skin_for_champion(&mut c, 1, Some(skin(2, 2001, None)), Some(custom("new", 1)));
    assert!(c.skins.is_empty());
    assert_eq!(c.custom_skins, vec![custom("new", 1)]);
}

#[test]
fn clock_steps() {
    let mut s = WatcherState::new(0);
    record_reinjection_time(&mut s, 12345);
    assert_eq!(s.last_reinjection_time_ms, 12345);
    assert_eq!(assign_watcher_instance_id(&mut s, 0b1100, 0b1010), 0b0110);
    assert_eq!(s.lcu_watcher_instance_id, 0b0110);
    s.last_shared_champion_id = 9;
    start_champ_select_session_at(&mut s, 777);
    assert_eq!(s.champ_select_start_time_ms, 777);
    assert_eq!(s.champ_select_session_counter, 1);
    assert_eq!((s.last_shared_champion_id, s.last_reinjection_time_ms), (0, 0));
}

#[test]
fn first_existing_candidate() {
    let c = vec!["a".to_string(), "b".to_string(), "c".to_string()];
    assert_eq!(first_existing(&c, &vec![false, true, true]), Some(1));
    assert_eq!(first_existing(&c, &vec![false, false, false]), None);
    assert_eq!(first_existing(&vec![], &vec![]), None);
    assert_eq!(find_lockfile("/nonexistent/osskins"), Err("Lockfile not found. Is League of Legends running?".to_string()));
    assert_eq!(detect_in_common_paths(), None);
}

#[test]
fn friend_skin_paths() {
    let c = friend_skin_candidates("/ezrea/ahri/Dynasty.zip", "C:/data/champions", "D:/LoL/ASSETS/Skins/");
    let ch = "C:/data/champions";
    let ad = "D:/LoL/ASSETS/Skins";
    let expected: Vec<String> = vec![
        "/ezrea/ahri/Dynasty.zip".to_string(),
        format!("{}/ahri/Dynasty.zip", ch),
        format!("{}/Dynasty.zip", ch),
        format!("{}/ezrea/ahri/Dynasty.zip", ch),
        format!("{}/Dynasty.zip", ch),
        format!("{}/Dynasty.zip", ch),
        format!("{}/Dynasty.skin_file", ch),
        format!("{}/Dynasty.zip", ch),
        format!("{}/Dynasty.zip", ch),
        format!("{}/Dynasty.skin_file", ch),
        format!("{}/ezrea/ahri/Dynasty.zip", ad),
        format!("{}/Dynasty.zip", ad),
        format!("{}/Dynasty.zip", ad),
        format!("{}/Dynasty.skin_file", ad),
        format!("{}/Dynasty.zip", ad),
        format!("{}/Dynasty.zip", ad),
        format!("{}/Dynasty.skin_file", ad),
    ];
    assert_eq!(c, expected);
    let relative = friend_skin_candidates("skins\\Arcade.skin_file", "/c", "");
    assert_eq!(relative[0], "/c/skins/Arcade.skin_file");
    assert_eq!(relative[4], "/c/skins\\Arcade.skin_file");
    assert_eq!(relative[1], "/c/Arcade.skin_file");
    assert_eq!(relative[2], "/c/Arcade.zip");
    assert_eq!(relative[3], "/c/Arcade.skin_file");
    assert_eq!(relative.len(), 16);
    assert_eq!(relative[12], "skins\\Arcade.skin_file");
    assert_eq!(relative[13], "Arcade.skin_file");
}

#[test]
fn skin_names_from_stems() {
    assert_eq!(skin_name_from_stem(103, 103001, Some("Dynasty Ahri".to_string())), "Dynasty Ahri");
    assert_eq!(skin_name_from_stem(103, 103001, None), "Champion 103 Skin 103001");
}

#[test]
fn conversation_steps() {
    assert_eq!(friend_pid_or_error(Some("p7".to_string()), "7"), Ok("p7".to_string()));
    assert_eq!(friend_pid_or_error(None, "7"), Err("Friend with summoner ID 7 not found in friends list or conversations".to_string()));
    let body = obj(vec![("id", Json::Str("c9".to_string()))]);
    assert_eq!(conversation_after_creation(Some(&body)), ConversationNext::Use("c9".to_string()));
    assert_eq!(conversation_after_creation(Some(&obj(vec![]))), ConversationNext::Fail("Failed to get conversation ID from created conversation".to_string()));
    assert_eq!(conversation_after_creation(None), ConversationNext::ProbePid);
    assert_eq!(conversation_after_probe(true, "p7", "7"), "p7");
    assert_eq!(conversation_after_probe(false, "p7", "7"), "7");
}

#[test]
fn lobby_with_upper_cased_mode() {
    let slot = |c: u64| obj(vec![("championId", num(c))]);
    let l = obj(vec![
        ("state", Json::Str("MATCHMAKING".to_string())),
        ("localMember", obj(vec![("playerSlots", Json::Array(vec![slot(103), slot(55)]))])),
    ]);
    assert_eq!(extract_lobby_champions_for_mode(&l, "BRAWL", &None, false), vec![103]);
    assert_eq!(extract_lobby_champions_for_mode(&l, "brawl", &None, false), vec![103, 55]);
    assert_eq!(extract_lobby_champions(&l, "brawl", &None, false), vec![103]);
    assert!(is_multi_champion_mode(&obj(vec![]), "arena"));
}

#[test]
fn signatures_see_skin_changes() {
    let mut s1 = WatcherState::new(0);
    s1.received_skins.insert("7_103".to_string(), received("7", 103, 103001));
    let mut s2 = WatcherState::new(0);
    s2.received_skins.insert("7_103".to_string(), received("7", 103, 103002));
    assert_ne!(compute_party_injection_signature(&mut s1, 103), compute_party_injection_signature(&mut s2, 103));
    let mut c1 = SavedConfig::default();
    c1.skins = vec![skin(103, 103001, None)];
    let mut c2 = SavedConfig::default();
    c2.skins = vec![skin(103, 103001, Some(4))];
    let misc: Vec<MiscItem> = vec![];
    assert_ne!(compute_instant_assign_signature(&vec![103], &c1, &misc), compute_instant_assign_signature(&vec![103], &c2, &misc));
}
