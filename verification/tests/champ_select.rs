use osskins::champ_select::{
    extract_swift_play_champions_from_lobby, get_selected_champion_id,
    get_swift_play_champion_selections, instant_assign_session_champions, parse_lcu_ws_event,
};
use osskins::json::{Json, JsonNumber};

fn obj(members: Vec<(&str, Json)>) -> Json {
    Json::Object(members.into_iter().map(|(k, v)| (k.to_string(), v)).collect())
}

fn jint(n: i64) -> Json {
    if n >= 0 {
        Json::Number(JsonNumber::PosInt(n as u64))
    } else {
        Json::Number(JsonNumber::NegInt(n))
    }
}

fn text(s: &str) -> Json {
    Json::Str(s.to_string())
}

fn pick(cell: i64, champ: i64, completed: bool, in_progress: bool) -> Json {
    obj(vec![
        ("actorCellId", jint(cell)),
        ("type", text("pick")),
        ("championId", jint(champ)),
        ("completed", Json::Bool(completed)),
        ("isInProgress", Json::Bool(in_progress)),
    ])
}

#[test]
fn selected_champion_from_completed_pick() {
    let session = obj(vec![
        ("localPlayerCellId", jint(2)),
        ("actions", Json::Array(vec![
            Json::Array(vec![obj(vec![("actorCellId", jint(2)), ("type", text("ban")), ("championId", jint(99)), ("completed", Json::Bool(true))])]),
            Json::Array(vec![pick(1, 55, true, false), pick(2, 103, true, false)]),
        ])),
    ]);
    assert_eq!(get_selected_champion_id(&session), Some(103));
}

#[test]
fn no_champion_while_pick_in_progress() {
    let session = obj(vec![
        ("localPlayerCellId", jint(2)),
        ("actions", Json::Array(vec![Json::Array(vec![pick(2, 103, false, true)])])),
        ("myTeam", Json::Array(vec![obj(vec![("cellId", jint(2)), ("championId", jint(103))])])),
    ]);
    assert_eq!(get_selected_champion_id(&session), None);
}

#[test]
fn selected_champion_falls_back_to_team() {
    let session = obj(vec![
        ("localPlayerCellId", jint(4)),
        ("myTeam", Json::Array(vec![
            obj(vec![("cellId", jint(3)), ("championId", jint(1))]),
            obj(vec![("cellId", jint(4)), ("championId", jint(0))]),
            obj(vec![("cellId", jint(4)), ("championId", jint(222))]),
        ])),
    ]);
    assert_eq!(get_selected_champion_id(&session), Some(222));
    assert_eq!(get_selected_champion_id(&obj(vec![])), None);
}

#[test]
fn swift_play_from_local_player_selections() {
    let session = obj(vec![
        ("localPlayerSelection", obj(vec![("summonerId", jint(77))])),
        ("gameData", obj(vec![("playerChampionSelections", Json::Array(vec![
            obj(vec![("summonerId", jint(5)), ("championIds", Json::Array(vec![jint(1), jint(2)]))]),
            obj(vec![("summonerId", jint(77)), ("championIds", Json::Array(vec![jint(103), jint(0), jint(103), jint(84)]))]),
        ]))])),
        ("roleAssignments", Json::Array(vec![obj(vec![("championId", jint(9))])])),
    ]);
    assert_eq!(get_swift_play_champion_selections(&session), vec![103, 84]);
}

#[test]
fn swift_play_falls_through_sources() {
    let team = obj(vec![
        ("playerName", text("me")),
        ("myTeam", Json::Array(vec![
            obj(vec![("summonerName", text("other")), ("championId", jint(1))]),
            obj(vec![("summonerName", text("me")), ("championId", jint(10)), ("secondaryChampionId", jint(20))]),
        ])),
    ]);
    assert_eq!(get_swift_play_champion_selections(&team), vec![10, 20]);
    let roles = obj(vec![("roleAssignments", Json::Array(vec![obj(vec![("championId", jint(9))]), obj(vec![("championId", jint(-1))])]))]);
    assert_eq!(get_swift_play_champion_selections(&roles), vec![9]);
    let lobby = obj(vec![("localMember", obj(vec![("playerSlots", Json::Array(vec![
        obj(vec![("championId", jint(12))]),
        obj(vec![("championId", jint(12))]),
        obj(vec![("championId", jint(13))]),
    ]))]))]);
    assert_eq!(extract_swift_play_champions_from_lobby(&lobby), vec![12, 13]);
    assert_eq!(get_swift_play_champion_selections(&lobby), vec![12, 13]);
    assert_eq!(get_swift_play_champion_selections(&obj(vec![])), Vec::<i64>::new());
}

#[test]
fn instant_assign_adds_every_selection() {
    let session = obj(vec![
        ("localPlayerSelection", obj(vec![("summonerId", jint(77))])),
        ("gameData", obj(vec![
            ("playerChampionSelections", Json::Array(vec![
                obj(vec![("summonerId", jint(77)), ("championIds", Json::Array(vec![jint(103)]))]),
                obj(vec![("summonerId", jint(8)), ("championIds", Json::Array(vec![jint(5), jint(103)]))]),
            ])),
            ("selectedChampions", Json::Array(vec![obj(vec![("championId", jint(44))])])),
        ])),
    ]);
    assert_eq!(instant_assign_session_champions(&session), vec![103, 44, 5]);
}

#[test]
fn websocket_events() {
    let msg = Json::Array(vec![
        jint(8),
        text("OnJsonApiEvent"),
        obj(vec![("uri", text("/lol-gameflow/v1/gameflow-phase")), ("data", text("ChampSelect"))]),
    ]);
    let ev = parse_lcu_ws_event(msg).unwrap();
    assert_eq!(ev.uri, "/lol-gameflow/v1/gameflow-phase");
    assert_eq!(ev.data, text("ChampSelect"));
    let no_data = parse_lcu_ws_event(Json::Array(vec![jint(8), text("x"), obj(vec![])])).unwrap();
    assert_eq!(no_data.uri, "");
    assert_eq!(no_data.data, Json::Null);
    assert!(parse_lcu_ws_event(Json::Array(vec![jint(8), text("x")])).is_none());
    assert!(parse_lcu_ws_event(Json::Array(vec![jint(8), text("x"), text("y")])).is_none());
    assert!(parse_lcu_ws_event(obj(vec![])).is_none());
}
