use osskins::chat::{
    extract_oss_message_timestamp, has_party_prefix, message_id, message_sender, message_timestamp,
    triage_party_message, MessageTriage, ProcessedMessageIds,
};
use osskins::friends::{
    conversation_id_for_pid, conversation_id_with, current_summoner_from_json, current_summoner_identity, friend_pid_from_friends,
    get_friend_display_name, parse_friends, party_ids_from_champ_select, party_ids_from_lobby,
    pid_if_sender_in, FriendInfo,
};
use osskins::json::{Json, JsonNumber};

fn obj(members: Vec<(&str, Json)>) -> Json {
    Json::Object(members.into_iter().map(|(k, v)| (k.to_string(), v)).collect())
}

fn text(s: &str) -> Json {
    Json::Str(s.to_string())
}

fn jint(n: i64) -> Json {
    if n >= 0 {
        Json::Number(JsonNumber::PosInt(n as u64))
    } else {
        Json::Number(JsonNumber::NegInt(n))
    }
}

#[test]
fn message_ids() {
    assert_eq!(message_id(&obj(vec![("id", text("abc"))])), "abc");
    assert_eq!(message_id(&obj(vec![("id", jint(42))])), "42");
    assert_eq!(message_id(&obj(vec![("id", Json::Bool(true))])), "unknown");
    assert_eq!(message_id(&obj(vec![])), "unknown");
}

#[test]
fn message_timestamps_read_rfc3339() {
    assert_eq!(message_timestamp(&obj(vec![("timestamp", text("2024-01-01T00:00:00.000Z"))])), 1704067200000);
    assert_eq!(message_timestamp(&obj(vec![("timestamp", text("2024-01-01T01:00:00+01:00"))])), 1704067200000);
    assert_eq!(message_timestamp(&obj(vec![("timestamp", text("yesterday"))])), 0);
    assert_eq!(message_timestamp(&obj(vec![("timestamp", jint(123))])), 123);
    assert_eq!(message_timestamp(&obj(vec![])), 0);
}

#[test]
fn party_payload_timestamps() {
    assert!(has_party_prefix("OSS:{}"));
    assert!(!has_party_prefix("hi OSS:"));
    let nested = obj(vec![("data", obj(vec![("timestamp", jint(5))])), ("timestamp", jint(7))]);
    assert_eq!(extract_oss_message_timestamp("OSS:x", Some(&nested)), 5);
    let flat = obj(vec![("timestamp", jint(7))]);
    assert_eq!(extract_oss_message_timestamp("OSS:x", Some(&flat)), 7);
    assert_eq!(extract_oss_message_timestamp("hello", Some(&flat)), 0);
    assert_eq!(extract_oss_message_timestamp("OSS:x", None), 0);
}

#[test]
fn message_senders() {
    assert_eq!(message_sender(&obj(vec![("fromSummonerId", text("1")), ("fromId", text("2"))])), Some("1".to_string()));
    assert_eq!(message_sender(&obj(vec![("fromId", text("2"))])), Some("2".to_string()));
    assert_eq!(message_sender(&obj(vec![("senderId", text("3"))])), Some("3".to_string()));
    assert_eq!(message_sender(&obj(vec![("fromId", jint(2))])), None);
}

#[test]
fn processed_ids_are_bounded() {
    let mut p = ProcessedMessageIds::new();
    for i in 0..=200 {
        p.insert(format!("id{:03}", i));
    }
    p.insert("id005".to_string());
    assert_eq!(p.len(), 201);
    p.trim();
    assert_eq!(p.len(), 100);
    assert!(p.contains("id200"));
    assert!(p.contains("id101"));
    assert!(!p.contains("id100"));
    p.trim();
    assert_eq!(p.len(), 100);
}

fn party_message(id: &str, from: Option<&str>) -> Json {
    let mut members = vec![("id", text(id)), ("body", text("OSS:{}")), ("timestamp", jint(50_000))];
    if let Some(f) = from {
        members.push(("fromSummonerId", text(f)));
    }
    obj(members)
}

#[test]
fn party_messages_are_triaged_once() {
    let mut p = ProcessedMessageIds::new();
    let plain = obj(vec![("id", text("m0")), ("body", text("hello"))]);
    assert_eq!(triage_party_message(&mut p, &plain, None, 0, 60_000), MessageTriage::NotPartyMessage);
    assert_eq!(p.len(), 0);
    let m = party_message("m1", Some("7"));
    assert_eq!(triage_party_message(&mut p, &m, None, 0, 60_000), MessageTriage::Handle { from_summoner_id: "7".to_string() });
    assert_eq!(triage_party_message(&mut p, &m, None, 0, 60_000), MessageTriage::AlreadyProcessed);
    assert_eq!(triage_party_message(&mut p, &party_message("m2", None), None, 0, 60_000), MessageTriage::NoSender);
    assert_eq!(p.len(), 2);
}

#[test]
fn stale_party_messages() {
    let mut p = ProcessedMessageIds::new();
    let m = party_message("m1", Some("7"));
    assert_eq!(triage_party_message(&mut p, &m, None, 60_000, 70_000), MessageTriage::Stale);
    let old = party_message("m2", Some("7"));
    assert_eq!(triage_party_message(&mut p, &old, None, 0, 400_000), MessageTriage::Stale);
    let payload = obj(vec![("timestamp", jint(390_000))]);
    let fresh = party_message("m3", Some("7"));
    assert_eq!(triage_party_message(&mut p, &fresh, Some(&payload), 0, 400_000), MessageTriage::Handle { from_summoner_id: "7".to_string() });
    assert!(p.contains("m1") && p.contains("m2") && p.contains("m3"));
}

fn friend_entry(id: i64, name: &str, tag: &str, availability: Option<&str>, pid: &str) -> Json {
    let mut members = vec![
        ("summonerId", jint(id)),
        ("gameName", text(name)),
        ("gameTag", text(tag)),
        ("puuid", text("puuid-x")),
        ("pid", text(pid)),
    ];
    if let Some(a) = availability {
        members.push(("availability", text(a)));
    }
    obj(members)
}

#[test]
fn friends_list() {
    let data = Json::Array(vec![
        friend_entry(7, "Ann", "EUW", Some("chat"), "p7"),
        friend_entry(8, "Bob", "", Some("offline"), "p8"),
        friend_entry(9, "", "", None, ""),
        friend_entry(10, "", "", None, "p10"),
    ]);
    let friends = parse_friends(&data);
    assert_eq!(friends.len(), 3);
    assert_eq!(friends[0], FriendInfo {
        summoner_id: "7".to_string(),
        summoner_name: "Ann".to_string(),
        display_name: "Ann#EUW".to_string(),
        is_online: true,
        availability: Some("chat".to_string()),
        puuid: "puuid-x".to_string(),
        pid: "p7".to_string(),
    });
    assert_eq!(friends[1].display_name, "Bob");
    assert!(!friends[1].is_online);
    assert_eq!(friends[2].display_name, "Unknown");
    assert!(!friends[2].is_online);
    assert!(parse_friends(&obj(vec![])).is_empty());
    assert_eq!(get_friend_display_name(&friends, "7"), Ok("Ann#EUW".to_string()));
    assert_eq!(get_friend_display_name(&friends, "99"), Err("Friend with summoner ID 99 not found".to_string()));
}

#[test]
fn conversations_with_a_friend() {
    let friends = Json::Array(vec![friend_entry(7, "Ann", "EUW", None, "p7")]);
    assert_eq!(friend_pid_from_friends(&friends, "7"), Some("p7".to_string()));
    assert_eq!(friend_pid_from_friends(&friends, "8"), None);
    let convs = Json::Array(vec![
        obj(vec![("pid", text("p1")), ("id", text("c1"))]),
        obj(vec![("pid", text("p7"))]),
        obj(vec![("pid", text("p7")), ("id", text("c7"))]),
    ]);
    assert_eq!(conversation_id_for_pid(&convs, "p7"), Some("c7".to_string()));
    assert_eq!(conversation_id_for_pid(&convs, "p9"), None);
    let conv = obj(vec![("pid", text("p7"))]);
    let messages = Json::Array(vec![obj(vec![("fromId", text("1"))]), obj(vec![("fromSummonerId", text("7"))])]);
    assert_eq!(pid_if_sender_in(&conv, &messages, "7"), Some("p7".to_string()));
    assert_eq!(pid_if_sender_in(&conv, &messages, "8"), None);
}

#[test]
fn current_summoner() {
    assert_eq!(current_summoner_from_json(&obj(vec![("summonerId", jint(123)), ("displayName", text("Me"))])), Ok(("123".to_string(), "Me".to_string())));
    assert_eq!(current_summoner_from_json(&obj(vec![("summonerId", jint(1)), ("gameName", text("G")), ("gameTag", text("T"))])), Ok(("1".to_string(), "G#T".to_string())));
    assert_eq!(current_summoner_from_json(&obj(vec![("summonerId", jint(1)), ("name", text("N"))])), Ok(("1".to_string(), "N".to_string())));
    assert_eq!(current_summoner_from_json(&obj(vec![("summonerId", jint(1))])), Ok(("1".to_string(), "User1".to_string())));
    assert_eq!(current_summoner_from_json(&obj(vec![("summonerId", text("1"))])), Err("Summoner ID not found".to_string()));
}

#[test]
fn party_member_ids() {
    let session = obj(vec![("myTeam", Json::Array(vec![obj(vec![("summonerId", jint(1))]), obj(vec![("summonerId", jint(-2))]), obj(vec![])]))]);
    assert_eq!(party_ids_from_champ_select(&session), vec!["1", "-2"]);
    let lobby = obj(vec![("members", Json::Array(vec![obj(vec![("summonerId", jint(5))])]))]);
    assert_eq!(party_ids_from_lobby(&lobby), vec!["5"]);
    assert!(party_ids_from_lobby(&obj(vec![])).is_empty());
}

#[test]
fn direct_conversation_ids() {
    assert_eq!(conversation_id_with("bbb", "aaa@eu1.pvp.net"), Ok("aaa_bbb".to_string()));
    assert_eq!(conversation_id_with("aaa", "ccc"), Ok("aaa_ccc".to_string()));
    assert_eq!(conversation_id_with("ab", "a"), Ok("a_ab".to_string()));
    assert_eq!(conversation_id_with("x", "@server"), Ok("_x".to_string()));
    assert_eq!(conversation_id_with("", "friend"), Err("Invalid summoner puuid".to_string()));
}

#[test]
fn summoner_identity() {
    assert_eq!(current_summoner_identity(&obj(vec![("puuid", text("p-1")), ("summonerId", jint(42))])), Some(("p-1".to_string(), 42)));
    assert_eq!(current_summoner_identity(&obj(vec![("puuid", text("")), ("summonerId", jint(42))])), None);
    assert_eq!(current_summoner_identity(&obj(vec![("puuid", text("p-1")), ("summonerId", jint(0))])), None);
    assert_eq!(current_summoner_identity(&obj(vec![("summonerId", jint(42))])), None);
}
