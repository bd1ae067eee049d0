use osskins::json::{Json, JsonNumber};
use osskins::lobby::{contains_str, detect_game_mode, extract_lobby_champions, is_multi_champion_mode};

fn obj(members: Vec<(&str, Json)>) -> Json {
    Json::Object(members.into_iter().map(|(k, v)| (k.to_string(), v)).collect())
}

fn text(s: &str) -> Json {
    Json::Str(s.to_string())
}

fn jint(n: i64) -> Json {
    Json::Number(JsonNumber::PosInt(n as u64))
}

fn slot(champ: i64, status: Option<&str>) -> Json {
    let mut m = vec![("championId", jint(champ))];
    if let Some(s) = status {
        m.push(("selectionStatus", text(s)));
    }
    obj(m)
}

fn lobby(state: &str, slots: Vec<Json>) -> Json {
    obj(vec![("state", text(state)), ("localMember", obj(vec![("playerSlots", Json::Array(slots))]))])
}

#[test]
fn substring_search() {
    assert!(contains_str("SWIFT_PLAY", "SWIFT"));
    assert!(contains_str("abc", ""));
    assert!(!contains_str("ab", "abc"));
}

#[test]
fn game_modes() {
    let q = |id: i64| obj(vec![("gameData", obj(vec![("queue", obj(vec![("id", jint(id))]))]))]);
    assert_eq!(detect_game_mode(&q(1700)), "SWIFT_PLAY");
    assert_eq!(detect_game_mode(&q(480)), "SWIFT_PLAY");
    assert_eq!(detect_game_mode(&q(2300)), "BRAWL");
    assert_eq!(detect_game_mode(&q(450)), "ARAM");
    assert_eq!(detect_game_mode(&obj(vec![("gameConfig", obj(vec![("queueId", jint(1300))]))])), "BRAWL");
    assert_eq!(detect_game_mode(&obj(vec![("queue", obj(vec![("id", jint(450))]))])), "ARAM");
    let classic = obj(vec![("gameData", obj(vec![("queue", obj(vec![("id", jint(420)), ("gameMode", text("CLASSIC"))]))]))]);
    assert_eq!(detect_game_mode(&classic), "CLASSIC");
    assert_eq!(detect_game_mode(&obj(vec![("map", obj(vec![("gameMode", text("URF"))]))])), "URF");
    assert_eq!(detect_game_mode(&obj(vec![("phase", text("Lobby"))])), "Lobby");
    assert_eq!(detect_game_mode(&obj(vec![])), "UNKNOWN");
}

#[test]
fn matchmaking_counts_every_placed_champion() {
    let l = lobby("MATCHMAKING", vec![slot(103, None), slot(55, None), slot(103, None)]);
    assert_eq!(extract_lobby_champions(&l, "CLASSIC", &None, true), vec![103, 55]);
}

#[test]
fn single_champion_modes_take_the_first_slot() {
    let l = lobby("MATCHMAKING", vec![slot(103, None), slot(55, None)]);
    assert_eq!(extract_lobby_champions(&l, "brawl", &None, false), vec![103]);
    assert_eq!(extract_lobby_champions(&l, "Aram", &None, false), vec![103]);
}

#[test]
fn outside_matchmaking_only_locked_slots_count() {
    let l = lobby("", vec![slot(103, Some("SELECTED")), slot(55, None), slot(7, Some("HOVER"))]);
    assert_eq!(extract_lobby_champions(&l, "CLASSIC", &None, false), vec![103]);
    assert_eq!(extract_lobby_champions(&l, "CLASSIC", &None, true), vec![103]);
    assert_eq!(extract_lobby_champions(&l, "swift_play", &None, false), vec![103, 55, 7]);
}

#[test]
fn confirmed_member_champion() {
    let l = obj(vec![("localMember", obj(vec![("ready", Json::Bool(true)), ("championId", jint(42))]))]);
    assert_eq!(extract_lobby_champions(&l, "CLASSIC", &None, false), vec![42]);
    let not_ready = obj(vec![("localMember", obj(vec![("championId", jint(42))]))]);
    assert!(extract_lobby_champions(&not_ready, "CLASSIC", &None, false).is_empty());
}

#[test]
fn aram_falls_back_to_team_and_bench() {
    let team = obj(vec![
        ("localPlayerCellId", jint(1)),
        ("myTeam", Json::Array(vec![obj(vec![("cellId", jint(1)), ("championId", jint(88))])])),
        ("benchChampions", Json::Array(vec![obj(vec![("championId", jint(9))])])),
    ]);
    assert_eq!(extract_lobby_champions(&team, "ARAM", &None, false), vec![88]);
    let bench = obj(vec![("benchChampions", Json::Array(vec![
        obj(vec![("championId", jint(9))]),
        obj(vec![("championId", jint(10)), ("selected", Json::Bool(true))]),
    ]))]);
    assert_eq!(extract_lobby_champions(&bench, "ARAM", &None, false), vec![10]);
    let first = obj(vec![("benchChampions", Json::Array(vec![obj(vec![("championId", jint(9))])]))]);
    assert_eq!(extract_lobby_champions(&first, "ARAM", &None, false), vec![9]);
    assert!(extract_lobby_champions(&first, "CLASSIC", &None, false).is_empty());
}

#[test]
fn matchmaking_selections_by_current_summoner() {
    let session = obj(vec![
        ("state", text("MATCHMAKING")),
        ("gameData", obj(vec![("playerChampionSelections", Json::Array(vec![
            obj(vec![("summonerId", jint(5)), ("championId", jint(11))]),
            obj(vec![("summonerId", jint(6)), ("championId", jint(12))]),
        ]))])),
    ]);
    assert_eq!(extract_lobby_champions(&session, "CLASSIC", &None, false), vec![11, 12]);
    let me = Some(("puuid-6".to_string(), 6i64));
    let r = extract_lobby_champions(&session, "BRAWL", &me, false);
    assert_eq!(r, vec![12]);
}

#[test]
fn multi_champion_modes() {
    assert!(is_multi_champion_mode(&obj(vec![]), "swift_play"));
    assert!(is_multi_champion_mode(&obj(vec![]), "Arena"));
    assert!(!is_multi_champion_mode(&obj(vec![]), "CLASSIC"));
    let q = obj(vec![("gameData", obj(vec![("queue", obj(vec![("id", jint(480))]))]))]);
    assert!(is_multi_champion_mode(&q, "CLASSIC"));
}
