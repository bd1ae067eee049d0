use osskins::config::{
    add_paired_friend, remove_paired_friend, remove_skin_for_champion, save_custom_skin,
    select_skin_for_champion, update_party_mode_settings, ConfigLock, CustomSkinData, PairedFriend,
    SavedConfig, SkinData,
};
use osskins::party::{
    build_skin_share, share_recipients, clear_received_skins, handle_party_mode_message, received_skin_key, should_inject_now,
    strip_party_prefix, InMemoryReceivedSkin, PartyMessageOutcome, ReceivedSkins, SkinShare,
};

fn skin(champion_id: u32, skin_id: u32) -> SkinData {
    SkinData { champion_id, skin_id, chroma_id: None, skin_file: None }
}

fn custom(id: &str, champion_id: u32) -> CustomSkinData {
    CustomSkinData {
        id: id.to_string(),
        name: format!("custom {}", id),
        champion_id,
        file_path: format!("/mods/{}.zip", id),
        created_at: 1,
    }
}

fn friend(id: &str, share: bool) -> PairedFriend {
    PairedFriend {
        summoner_id: id.to_string(),
        summoner_name: format!("name {}", id),
        display_name: format!("display {}", id),
        paired_at: 5,
        share_enabled: share,
    }
}

fn share(from: &str, champion_id: u32, skin_id: u32) -> SkinShare {
    SkinShare {
        from_summoner_id: from.to_string(),
        from_summoner_name: "Friend".to_string(),
        champion_id,
        skin_id,
        skin_name: "Skin".to_string(),
        chroma_id: None,
        fantome_path: None,
        timestamp: 1000,
    }
}

fn received(from: &str, champion_id: u32) -> InMemoryReceivedSkin {
    InMemoryReceivedSkin {
        from_summoner_id: from.to_string(),
        from_summoner_name: "Friend".to_string(),
        champion_id,
        skin_id: champion_id * 1000 + 1,
        chroma_id: None,
        fantome_path: None,
        received_at: 1,
    }
}

#[test]
fn default_config() {
    let c = SavedConfig::default();
    assert!(c.auto_update_data);
    assert!(c.party_mode.notifications);
    assert!(!c.party_mode.verbose_logging);
    assert!(c.skins.is_empty() && c.custom_skins.is_empty() && c.league_path.is_none());
    let _lock = ConfigLock::new();
}

#[test]
fn choosing_a_skin_replaces_every_earlier_choice() {
    let mut c = SavedConfig::default();
    c.skins = vec![skin(1, 1001), skin(2, 2001), skin(1, 1002)];
    c.custom_skins = vec![custom("a", 1), custom("b", 2)];
    select_skin_for_champion(&mut c, 1, Some(skin(1, 1005)), None);
    assert_eq!(c.skins, vec![skin(2, 2001), skin(1, 1005)]);
    assert_eq!(c.custom_skins, vec![custom("b", 2)]);
}

#[test]
fn choosing_a_custom_skin_drops_the_official_one() {
    let mut c = SavedConfig::default();
    c.skins = vec![skin(1, 1001)];
    select_skin_for_champion(&mut c, 1, None, Some(custom("x", 1)));
    assert!(c.skins.is_empty());
    assert_eq!(c.custom_skins, vec![custom("x", 1)]);
}

#[test]
fn a_choice_for_another_champion_is_not_added() {
    let mut c = SavedConfig::default();
    c.skins = vec![skin(1, 1001)];
    select_skin_for_champion(&mut c, 1, Some(skin(2, 2001)), None);
    assert!(c.skins.is_empty());
}

#[test]
fn removing_a_champion_choice() {
    let mut c = SavedConfig::default();
    c.skins = vec![skin(1, 1001), skin(2, 2001)];
    c.custom_skins = vec![custom("a", 1), custom("b", 3)];
    remove_skin_for_champion(&mut c, 1);
    assert_eq!(c.skins, vec![skin(2, 2001)]);
    assert_eq!(c.custom_skins, vec![custom("b", 3)]);
}

#[test]
fn saving_a_custom_skin_replaces_same_id() {
    let mut c = SavedConfig::default();
    c.custom_skins = vec![custom("a", 1), custom("b", 2)];
    let mut newer = custom("a", 5);
    newer.created_at = 99;
    let mut expected = custom("a", 5);
    expected.created_at = 99;
    save_custom_skin(&mut c, newer);
    assert_eq!(c.custom_skins, vec![custom("b", 2), expected]);
}

#[test]
fn pairing_is_idempotent_and_unpairing_removes() {
    let mut c = SavedConfig::default();
    assert!(add_paired_friend(&mut c, friend("7", true)));
    assert!(!add_paired_friend(&mut c, friend("7", false)));
    assert_eq!(c.party_mode.paired_friends, vec![friend("7", true)]);
    assert!(add_paired_friend(&mut c, friend("8", true)));
    remove_paired_friend(&mut c, "7");
    assert_eq!(c.party_mode.paired_friends, vec![friend("8", true)]);
    remove_paired_friend(&mut c, "missing");
    assert_eq!(c.party_mode.paired_friends, vec![friend("8", true)]);
}

#[test]
fn notification_setting() {
    let mut c = SavedConfig::default();
    update_party_mode_settings(&mut c, false);
    assert!(!c.party_mode.notifications);
    assert!(!c.party_mode.verbose_logging);
}

#[test]
fn received_skin_keys() {
    assert_eq!(received_skin_key("12345", 103), "12345_103");
}

#[test]
fn prefix_stripping() {
    assert_eq!(strip_party_prefix("OSS:{\"a\":1}"), Some("{\"a\":1}".to_string()));
    assert_eq!(strip_party_prefix("OSS:"), Some(String::new()));
    assert_eq!(strip_party_prefix("hello"), None);
    assert_eq!(strip_party_prefix("oss:x"), None);
}

#[test]
fn party_messages_are_stored_once_per_friend_and_champion() {
    let mut store = ReceivedSkins::new();
    assert_eq!(handle_party_mode_message(&mut store, true, "skin_share", Some(share("7", 103, 103001)), "1"), PartyMessageOutcome::Stored);
    assert_eq!(handle_party_mode_message(&mut store, true, "skin_share", Some(share("7", 103, 103002)), "1"), PartyMessageOutcome::Stored);
    assert_eq!(store.len(), 1);
    assert_eq!(store.get(0).skin_id, 103002);
    assert_eq!(store.get(0).received_at, 1000);
    assert_eq!(handle_party_mode_message(&mut store, true, "skin_share", Some(share("8", 103, 103003)), "1"), PartyMessageOutcome::Stored);
    assert_eq!(store.len(), 2);
}

#[test]
fn party_messages_that_are_not_stored() {
    let mut store = ReceivedSkins::new();
    assert_eq!(handle_party_mode_message(&mut store, true, "ping", Some(share("7", 1, 1)), "1"), PartyMessageOutcome::UnknownType);
    assert_eq!(handle_party_mode_message(&mut store, true, "skin_share", None, "1"), PartyMessageOutcome::Malformed);
    assert_eq!(handle_party_mode_message(&mut store, true, "skin_share", Some(share("1", 1, 1)), "1"), PartyMessageOutcome::IgnoredSelf);
    assert_eq!(handle_party_mode_message(&mut store, false, "skin_share", Some(share("7", 1, 1)), "1"), PartyMessageOutcome::IgnoredNotInChampSelect);
    assert_eq!(store.len(), 0);
}

#[test]
fn clearing_received_skins() {
    let mut store = ReceivedSkins::new();
    store.insert("7_1".to_string(), received("7", 1));
    store.insert("8_1".to_string(), received("8", 1));
    store.insert("7_1".to_string(), received("7", 2));
    assert_eq!(store.len(), 2);
    assert_eq!(store.get(0).champion_id, 2);
    clear_received_skins(&mut store);
    assert_eq!(store.len(), 0);
}

#[test]
fn injection_waits_for_sharing_friends_in_the_party() {
    let mut c = SavedConfig::default();
    c.party_mode.paired_friends = vec![friend("7", true), friend("8", true), friend("9", false)];
    let party = vec!["1".to_string(), "7".to_string(), "8".to_string(), "9".to_string()];
    let mut store = ReceivedSkins::new();
    assert!(!should_inject_now(103, Some(&c), true, &party, &store));
    store.insert("7_103".to_string(), received("7", 103));
    assert!(!should_inject_now(103, Some(&c), true, &party, &store));
    store.insert("8_103".to_string(), received("8", 103));
    assert!(should_inject_now(103, Some(&c), true, &party, &store));
}

#[test]
fn injection_verdict_edge_cases() {
    let mut c = SavedConfig::default();
    let store = ReceivedSkins::new();
    let party = vec!["7".to_string()];
    assert!(!should_inject_now(0, Some(&c), true, &party, &store));
    assert!(should_inject_now(103, None, true, &party, &store));
    assert!(should_inject_now(103, Some(&c), true, &party, &store));
    c.party_mode.paired_friends = vec![friend("7", true)];
    assert!(!should_inject_now(103, Some(&c), true, &party, &store));
    assert!(should_inject_now(103, Some(&c), false, &party, &store));
    assert!(should_inject_now(103, Some(&c), true, &vec!["5".to_string()], &store));
}

#[test]
fn shares_go_to_friends_with_sharing_on() {
    let mut c = SavedConfig::default();
    c.party_mode.paired_friends = vec![friend("7", true), friend("8", false), friend("9", true)];
    assert_eq!(share_recipients(&c), vec![friend("7", true), friend("9", true)]);
    assert!(share_recipients(&SavedConfig::default()).is_empty());
}

#[test]
fn shared_skins_are_named() {
    let mut c = SavedConfig::default();
    c.skins = vec![SkinData { champion_id: 103, skin_id: 103001, chroma_id: None, skin_file: Some("x/Dynasty Ahri.zip".to_string()) }, skin(1, 1001)];
    let s = build_skin_share(&c, "5".to_string(), "Me".to_string(), 103, 103001, Some(2), None, 77);
    assert_eq!(s.skin_name, "Dynasty Ahri");
    assert_eq!((s.from_summoner_id.as_str(), s.champion_id, s.skin_id, s.chroma_id, s.timestamp), ("5", 103, 103001, Some(2), 77));
    assert_eq!(build_skin_share(&c, "5".to_string(), "Me".to_string(), 1, 1001, None, None, 0).skin_name, "Champion 1 Skin 1001");
    assert_eq!(build_skin_share(&c, "5".to_string(), "Me".to_string(), 2, 2001, None, None, 0).skin_name, "Skin 2001");
}
