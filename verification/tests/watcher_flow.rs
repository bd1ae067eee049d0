use osskins::config::{CustomSkinData, SavedConfig, SkinData};
use osskins::flow::{
    champions_as_u32, champs_only_signature, instant_assign_decision, instant_assign_on_transition,
    matchmaking_reinject_decision, note_selected_champion, party_check_due, party_injection_decision,
    share_step, skin_change_plan, ShareDecision, Skin,
};
use osskins::injection_plan::{dedup_skins, local_skins_for_champions, party_injection_skins, party_injection_skins_for_champions};
use osskins::json::{Json, JsonNumber};
use osskins::misc::MiscItem;
use osskins::party::InMemoryReceivedSkin;
use osskins::signature::{compute_instant_assign_signature, compute_party_injection_signature};
use osskins::watcher::{
    activate_watcher, can_reinjection_happen, did_champion_change, format_json_summary,
    generate_watcher_instance_id, handle_phase_change, is_current_watcher_instance, is_in_champ_select,
    is_message_timestamp_valid, mark_reinjection_time, message_timestamp_verdict, reinjection_allowed_at,
    reset_champion_tracking, start_new_champ_select_session, watcher_exited, WatcherState,
};

fn obj(members: Vec<(&str, Json)>) -> Json {
    Json::Object(members.into_iter().map(|(k, v)| (k.to_string(), v)).collect())
}

fn skin_data(champion_id: u32, skin_id: u32) -> SkinData {
    SkinData { champion_id, skin_id, chroma_id: None, skin_file: None }
}

fn skin(champion_id: u32, skin_id: u32) -> Skin {
    Skin { champion_id, skin_id, chroma_id: None, skin_file_path: None }
}

fn received(from: &str, champion_id: u32) -> InMemoryReceivedSkin {
    InMemoryReceivedSkin {
        from_summoner_id: from.to_string(),
        from_summoner_name: "Friend".to_string(),
        champion_id,
        skin_id: champion_id * 1000 + 1,
        chroma_id: None,
        fantome_path: None,
        received_at: 1,
    }
}

fn misc(id: &str, item_type: &str) -> MiscItem {
    MiscItem { id: id.to_string(), name: id.to_string(), item_type: item_type.to_string(), skin_file_path: format!("{}.zip", id) }
}

#[test]
fn new_watcher_state() {
    let s = WatcherState::new(100_000);
    assert_eq!(s.last_party_injection_check_ms, 100_000);
    assert_eq!(s.last_party_injection_time_ms, 40_000);
    assert_eq!(s.last_phase, "None");
    assert!(!is_in_champ_select(&s));
    assert_eq!(WatcherState::new(10).last_party_injection_time_ms, 0);
}

#[test]
fn phase_changes() {
    let mut s = WatcherState::new(0);
    let r = handle_phase_change(&mut s, "Lobby", true);
    assert!(r.changed && !r.cleanup && !r.entered_champ_select && !r.trigger_manual_injection);
    let r = handle_phase_change(&mut s, "Matchmaking", true);
    assert!(r.changed && !r.cleanup && r.trigger_manual_injection);
    let r = handle_phase_change(&mut s, "ChampSelect", false);
    assert!(r.entered_champ_select && !r.trigger_manual_injection);
    assert!(is_in_champ_select(&s));
    assert_eq!(s.champ_select_session_counter, 1);
    let r = handle_phase_change(&mut s, "ChampSelect", false);
    assert!(!r.changed);
    let r = handle_phase_change(&mut s, "InProgress", false);
    assert!(r.changed && !r.cleanup);
    assert!(s.was_in_game && !s.was_reconnecting && !is_in_champ_select(&s));
    let r = handle_phase_change(&mut s, "Lobby", false);
    assert!(r.cleanup);
    assert_eq!(s.last_phase, "Lobby");
    let r = handle_phase_change(&mut s, "None", false);
    assert!(!r.cleanup);
}

#[test]
fn entering_champ_select_clears_the_session() {
    let mut s = WatcherState::new(0);
    s.received_skins.insert("7_1".to_string(), received("7", 1));
    s.last_party_injection_signature = Some("sig".to_string());
    s.last_shared_champion_id = 103;
    s.party_injection_done_this_phase = true;
    handle_phase_change(&mut s, "ChampSelect", false);
    assert_eq!(s.received_skins.len(), 0);
    assert_eq!(s.last_party_injection_signature, None);
    assert_eq!(s.last_shared_champion_id, 0);
    assert!(!s.party_injection_done_this_phase);
}

#[test]
fn message_timestamps() {
    assert_eq!(message_timestamp_verdict(0, 5, 100), (true, "no session tracked yet"));
    assert_eq!(message_timestamp_verdict(50, 40, 100), (false, "message predates current session"));
    assert_eq!(message_timestamp_verdict(50, 10_101, 100), (false, "message timestamp is in the future"));
    assert_eq!(message_timestamp_verdict(50, 10_100, 100), (true, "timestamp valid"));
    let mut s = WatcherState::new(0);
    assert!(is_message_timestamp_valid(&s, 1).0);
    s.champ_select_start_time_ms = 1000;
    assert_eq!(is_message_timestamp_valid(&s, 999), (false, "message predates current session"));
}

#[test]
fn reinjection_cooldown() {
    assert!(reinjection_allowed_at(0, 0, 100));
    assert!(reinjection_allowed_at(1000, 4000, 3000));
    assert!(!reinjection_allowed_at(1000, 3999, 3000));
    assert!(!reinjection_allowed_at(5000, 1000, 1));
    let mut s = WatcherState::new(0);
    assert!(can_reinjection_happen(&s, 1_000_000));
    mark_reinjection_time(&mut s);
    assert!(s.last_reinjection_time_ms > 0);
    assert!(!can_reinjection_happen(&s, 1_000_000_000));
}

#[test]
fn watcher_instances() {
    let mut s = WatcherState::new(0);
    assert!(!activate_watcher(&mut s));
    assert!(activate_watcher(&mut s));
    let id = generate_watcher_instance_id(&mut s, 4242);
    assert!(is_current_watcher_instance(&s, id));
    assert!(!is_current_watcher_instance(&s, id ^ 1));
    watcher_exited(&mut s, id ^ 1);
    assert!(s.lcu_watcher_active);
    watcher_exited(&mut s, id);
    assert!(!s.lcu_watcher_active);
}

#[test]
fn champion_tracking() {
    let mut s = WatcherState::new(0);
    assert!(!did_champion_change(&s, 55));
    s.last_shared_champion_id = 103;
    assert!(did_champion_change(&s, 55));
    assert!(!did_champion_change(&s, 103));
    reset_champion_tracking(&mut s);
    assert_eq!(s.last_shared_champion_id, 0);
    s.last_shared_champion_id = 7;
    s.champ_select_session_counter = u64::MAX;
    start_new_champ_select_session(&mut s);
    assert_eq!(s.champ_select_session_counter, 0);
    assert_eq!(s.last_shared_champion_id, 0);
    assert!(s.champ_select_start_time_ms > 0);
}

#[test]
fn party_signature_lists_sorted_shares() {
    let mut s = WatcherState::new(0);
    assert_eq!(compute_party_injection_signature(&mut s, 103), "champion:103:received:0");
    assert_eq!(s.last_shared_champion_id, 103);
    s.received_skins.insert("8_55".to_string(), received("8", 55));
    s.received_skins.insert("7_103".to_string(), received("7", 103));
    assert_eq!(compute_party_injection_signature(&mut s, 103), "champion:103:received:2|7:103:103001:0|8:55:55001:0");
}

#[test]
fn instant_assign_signature() {
    let mut c = SavedConfig::default();
    c.skins = vec![SkinData { champion_id: 1, skin_id: 1001, chroma_id: Some(5), skin_file: Some("a.zip".to_string()) }];
    c.custom_skins = vec![CustomSkinData { id: "x".to_string(), name: "X".to_string(), champion_id: 103, file_path: "/mods/x.zip".to_string(), created_at: 0 }];
    let sig = compute_instant_assign_signature(&vec![103, 1, 103, 7], &c, &vec![misc("map_2", "map"), misc("font_1", "font")]);
    assert_eq!(sig, "champs:1,7,103|selections:103:custom:/mods/x.zip|1:skin:1001:5:a.zip|7:none|misc:font:font_1,map:map_2");
    assert_eq!(champs_only_signature(&vec![103, 1, 103], 2), "champs_only:1,103,103|misc_count:2");
}

#[test]
fn noting_the_selected_champion() {
    let mut s = WatcherState::new(0);
    s.party_injection_done_this_phase = true;
    assert_eq!(note_selected_champion(&mut s, 103), (103, true));
    assert!(!s.party_injection_done_this_phase);
    s.party_injection_done_this_phase = true;
    assert_eq!(note_selected_champion(&mut s, 103), (103, false));
    assert!(s.party_injection_done_this_phase);
}

#[test]
fn sharing_is_debounced_per_champion() {
    let mut c = SavedConfig::default();
    c.skins = vec![skin_data(103, 103001)];
    let mut s = WatcherState::new(0);
    note_selected_champion(&mut s, 103);
    assert_eq!(share_step(&mut s, &c, 103, 10_000), ShareDecision::Share(skin_data(103, 103001)));
    assert_eq!(share_step(&mut s, &c, 103, 11_000), ShareDecision::Debounced);
    assert_eq!(share_step(&mut s, &c, 103, 12_000), ShareDecision::Share(skin_data(103, 103001)));
    assert_eq!(share_step(&mut s, &c, 55, 12_000), ShareDecision::NoSkinConfigured);
    assert_eq!(s.last_selected_skins.get(&103), Some(&skin_data(103, 103001)));
}

#[test]
fn party_checks_are_spaced() {
    let mut s = WatcherState::new(5000);
    assert!(!party_check_due(&mut s, 5999, false));
    assert!(party_check_due(&mut s, 6000, false));
    assert_eq!(s.last_party_injection_check_ms, 6000);
    assert!(!party_check_due(&mut s, 9000, true));
}

#[test]
fn party_injection_once_per_phase() {
    let mut s = WatcherState::new(0);
    assert!(!party_injection_decision(&mut s, 103, false, 10_000));
    assert!(party_injection_decision(&mut s, 103, true, 10_000));
    assert!(s.party_injection_done_this_phase);
    assert_eq!(s.last_party_injection_signature, Some("champion:103:received:0".to_string()));
    assert!(!party_injection_decision(&mut s, 103, true, 100_000));
    s.party_injection_done_this_phase = false;
    assert!(!party_injection_decision(&mut s, 103, true, 100_000));
    assert!(party_injection_decision(&mut s, 55, true, 200_000));
}

#[test]
fn skin_changes_are_planned_once() {
    let mut c = SavedConfig::default();
    c.skins = vec![skin_data(103, 103001), skin_data(1, 1001)];
    let mut s = WatcherState::new(0);
    s.last_champion_id = Some(103);
    s.received_skins.insert("7_103".to_string(), received("7", 103));
    let plan = skin_change_plan(&mut s, &c);
    assert_eq!(plan.len(), 1);
    assert_eq!(plan[0].skin, skin_data(103, 103001));
    assert_eq!(plan[0].skins_to_inject, vec![skin(103, 103001), skin(103, 103001)]);
    assert!(skin_change_plan(&mut s, &c).is_empty());
}

#[test]
fn instant_assign_transitions_and_decisions() {
    assert!(instant_assign_on_transition("Lobby", "Matchmaking", false, false));
    assert!(instant_assign_on_transition("None", "Matchmaking", false, true));
    assert!(!instant_assign_on_transition("None", "Matchmaking", false, false));
    assert!(!instant_assign_on_transition("Lobby", "Matchmaking", true, true));
    assert!(!instant_assign_on_transition("Lobby", "ChampSelect", false, true));
    assert_eq!(champions_as_u32(&vec![103, -1]), vec![103, u32::MAX]);
    let mut s = WatcherState::new(0);
    assert!(instant_assign_decision(&mut s, vec![103], "sig1".to_string()));
    assert!(!instant_assign_decision(&mut s, vec![103], "sig1".to_string()));
    assert!(instant_assign_decision(&mut s, vec![103, 1], "sig2".to_string()));
    assert_eq!(s.last_instant_assign_champions, vec![103, 1]);
    assert!(!matchmaking_reinject_decision(&mut s, "sig2".to_string()));
    assert!(matchmaking_reinject_decision(&mut s, "sig3".to_string()));
    assert_eq!(s.last_party_injection_signature, Some("sig3".to_string()));
}

#[test]
fn injection_lists_drop_repeats() {
    let a = skin(103, 103001);
    let b = skin(1, 1001);
    let entries = vec![(a.clone(), None), (a.clone(), None), (a.clone(), Some("7".to_string())), (b.clone(), None)];
    assert_eq!(dedup_skins(&entries), vec![a.clone(), a.clone(), b.clone()]);
    let mut c = SavedConfig::default();
    c.skins = vec![skin_data(103, 103001)];
    c.custom_skins = vec![CustomSkinData { id: "x".to_string(), name: "X".to_string(), champion_id: 1, file_path: "/m/x.zip".to_string(), created_at: 0 }];
    let friends = vec![(skin(103, 103005), "7".to_string()), (skin(103, 103005), "7".to_string())];
    assert_eq!(party_injection_skins(&c, 103, &friends), vec![a.clone(), skin(103, 103005)]);
    assert_eq!(party_injection_skins(&c, 0, &friends), vec![skin(103, 103005)]);
    let custom = Skin { champion_id: 1, skin_id: 0, chroma_id: None, skin_file_path: Some("/m/x.zip".to_string()) };
    assert_eq!(local_skins_for_champions(&c, &vec![103, 1, 2]), vec![a.clone(), custom.clone()]);
    assert_eq!(party_injection_skins_for_champions(&c, &vec![1, 103], &friends), vec![custom, a, skin(103, 103005)]);
}

#[test]
fn json_summaries() {
    let j = obj(vec![
        ("phase", Json::Str("ChampSelect".to_string())),
        ("gameData", obj(vec![])),
        ("actions", Json::Array(vec![Json::Null, Json::Null])),
    ]);
    assert_eq!(format_json_summary(&j), "phase: ChampSelect, gameData: {...}, actions: [2 items], ");
    assert_eq!(format_json_summary(&obj(vec![])), "[Response summary unavailable]");
    assert_eq!(format_json_summary(&Json::Null), "[Response summary unavailable]");
    let odd = obj(vec![("phase", Json::Number(JsonNumber::PosInt(1))), ("actions", Json::Bool(true))]);
    assert_eq!(format_json_summary(&odd), "phase: unknown, actions: [0 items], ");
}

#[test]
fn signatures_ignore_order() {
    let mut c = SavedConfig::default();
    c.skins = vec![skin_data(1, 1001), skin_data(103, 103001)];
    let a = compute_instant_assign_signature(&vec![1, 103], &c, &vec![misc("f", "font"), misc("m", "map")]);
    let b = compute_instant_assign_signature(&vec![103, 1, 1, 103], &c, &vec![misc("m", "map"), misc("f", "font")]);
    assert_eq!(a, b);
    let mut s1 = WatcherState::new(0);
    s1.received_skins.insert("7_103".to_string(), received("7", 103));
    s1.received_skins.insert("8_103".to_string(), received("8", 103));
    let mut s2 = WatcherState::new(0);
    s2.received_skins.insert("8_103".to_string(), received("8", 103));
    s2.received_skins.insert("7_103".to_string(), received("7", 103));
    assert_eq!(compute_party_injection_signature(&mut s1, 103), compute_party_injection_signature(&mut s2, 103));
}
