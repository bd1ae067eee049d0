use osskins::config::{SavedConfig, SkinData};
use osskins::json::{Json, JsonNumber};
use osskins::logbuf::{log_export, LogBuffer, LOG_CAPACITY};
use osskins::misc::{
    builtin_font_suffix, delete_misc_item, item_name_from_stem, new_misc_item, new_misc_item_from_file,
    sanitize_name, select_misc_items, MiscItem, UploadMiscItemRequest,
};
use osskins::settings::{
    get_skin_name_from_config, json_set, party_mode_verbose, read_injection_mode, save_selected_skins,
    set_auto_update_data, set_last_data_commit, InjectionMode,
};

fn obj(members: Vec<(&str, Json)>) -> Json {
    Json::Object(members.into_iter().map(|(k, v)| (k.to_string(), v)).collect())
}

fn text(s: &str) -> Json {
    Json::Str(s.to_string())
}

fn item(id: &str, item_type: &str) -> MiscItem {
    MiscItem { id: id.to_string(), name: format!("{} name", id), item_type: item_type.to_string(), skin_file_path: format!("{}.skin_file", id) }
}

#[test]
fn log_buffer_keeps_the_latest_lines() {
    let mut b = LogBuffer::new();
    assert_eq!(b.len(), 0);
    for i in 0..(LOG_CAPACITY + 5) {
        b.push(&format!("line {}", i));
    }
    assert_eq!(b.len(), LOG_CAPACITY);
    let joined = b.joined();
    assert!(joined.starts_with("line 5\nline 6\n"));
    assert!(joined.ends_with("\nline 2004"));
}

#[test]
fn log_export_sources() {
    let mut b = LogBuffer::new();
    assert_eq!(log_export(None, &b), Err("No logs available".to_string()));
    assert_eq!(log_export(Some(String::new()), &b), Err("No logs available".to_string()));
    b.push("a");
    b.push("b");
    assert_eq!(log_export(None, &b), Ok("a\nb".to_string()));
    assert_eq!(log_export(Some(String::new()), &b), Ok("a\nb".to_string()));
    assert_eq!(log_export(Some("live".to_string()), &b), Ok("live".to_string()));
}

#[test]
fn json_set_reads_back() {
    let mut j = Json::Null;
    json_set(&mut j, "a", text("1"));
    json_set(&mut j, "b", text("2"));
    json_set(&mut j, "a", text("3"));
    assert_eq!(j.get("a"), Some(&text("3")));
    assert_eq!(j.get("b"), Some(&text("2")));
    set_auto_update_data(&mut j, false);
    assert_eq!(j.get_bool("auto_update_data"), Some(false));
    set_last_data_commit(&mut j, "abc123");
    assert_eq!(j.get_str("last_data_commit"), Some("abc123"));
    assert_eq!(j.get("b"), Some(&text("2")));
}

#[test]
fn saving_selections_keeps_other_settings() {
    let mut j = obj(vec![("injection_mode", text("lobby")), ("auto_update_data", Json::Bool(false))]);
    save_selected_skins(&mut j, text("C:/Games"), Json::Array(vec![]), Json::Array(vec![]), Json::Null, Json::Array(vec![]));
    assert_eq!(j.get_str("league_path"), Some("C:/Games"));
    assert_eq!(j.get_bool("auto_update_data"), Some(false));
    assert_eq!(j.get_str("injection_mode"), Some("lobby"));
    let mut fresh = Json::Null;
    save_selected_skins(&mut fresh, Json::Null, Json::Array(vec![]), Json::Array(vec![]), Json::Null, Json::Array(vec![]));
    assert_eq!(fresh.get_bool("auto_update_data"), Some(true));
    assert_eq!(fresh.get("league_path"), Some(&Json::Null));
}

#[test]
fn injection_modes() {
    assert_eq!(read_injection_mode(&obj(vec![("injection_mode", text("LOBBY"))])), InjectionMode::Lobby);
    assert_eq!(read_injection_mode(&obj(vec![("injection_mode", text("Lobby_Mode"))])), InjectionMode::Lobby);
    assert_eq!(read_injection_mode(&obj(vec![("injection_mode", text("champ_select"))])), InjectionMode::ChampSelect);
    assert_eq!(read_injection_mode(&obj(vec![("injection_mode", Json::Number(JsonNumber::PosInt(1)))])), InjectionMode::ChampSelect);
    assert_eq!(read_injection_mode(&Json::Null), InjectionMode::ChampSelect);
    assert_eq!(party_mode_verbose(&obj(vec![("party_mode", obj(vec![("verbose_logging", Json::Bool(true))]))])), Some(true));
    assert_eq!(party_mode_verbose(&obj(vec![])), None);
}

#[test]
fn shared_skin_names() {
    let mut c = SavedConfig::default();
    c.skins = vec![
        SkinData { champion_id: 103, skin_id: 103001, chroma_id: None, skin_file: Some("ahri/Dynasty Ahri.zip".to_string()) },
        SkinData { champion_id: 1, skin_id: 1001, chroma_id: None, skin_file: None },
    ];
    assert_eq!(get_skin_name_from_config(&c, 103, 103001), Some("Dynasty Ahri".to_string()));
    assert_eq!(get_skin_name_from_config(&c, 1, 1001), Some("Champion 1 Skin 1001".to_string()));
    assert_eq!(get_skin_name_from_config(&c, 1, 1002), None);
}

#[test]
fn misc_item_names() {
    assert_eq!(sanitize_name("My Font!"), "My_Font_");
    assert_eq!(sanitize_name("é-ok_1"), "é-ok_1");
    assert_eq!(item_name_from_stem("cool-font (v2)!"), "cool-font v2");
    let req = UploadMiscItemRequest { name: "My Font".to_string(), item_type: "font".to_string() };
    assert_eq!(new_misc_item(&req, 123), MiscItem {
        id: "font_123".to_string(),
        name: "My Font".to_string(),
        item_type: "font".to_string(),
        skin_file_path: "font_My_Font.skin_file".to_string(),
    });
    assert_eq!(new_misc_item_from_file("map", "Summoners Rift!", 5), MiscItem {
        id: "map_Summoners_Rift!_5".to_string(),
        name: "Summoners Rift".to_string(),
        item_type: "map".to_string(),
        skin_file_path: "map_Summoners Rift.skin_file".to_string(),
    });
}

#[test]
fn deleting_misc_items() {
    let mut items = vec![item("a", "font"), item("b", "map")];
    assert_eq!(delete_misc_item(&mut items, "a"), Ok(item("a", "font")));
    assert_eq!(items, vec![item("b", "map")]);
    assert_eq!(delete_misc_item(&mut items, "zzz"), Err("Misc item not found".to_string()));
    assert_eq!(items, vec![item("b", "map")]);
}

#[test]
fn selecting_misc_items() {
    assert_eq!(builtin_font_suffix("builtin-font-korean", "font"), Some("korean".to_string()));
    assert_eq!(builtin_font_suffix("builtin-font-korean", "map"), None);
    assert_eq!(builtin_font_suffix("font_1", "font"), None);
    let all = vec![item("f1", "font"), item("f2", "font"), item("m1", "map")];
    let selections = vec![
        ("font".to_string(), vec!["f1".to_string(), "f2".to_string()]),
        ("map".to_string(), vec!["m1".to_string()]),
    ];
    assert_eq!(select_misc_items(&all, &selections, &vec![]), vec![
        item("f1", "font"), item("f2", "font"), item("m1", "map"),
    ]);
    let reversed = vec![("font".to_string(), vec!["f2".to_string(), "f1".to_string(), "missing".to_string()])];
    assert_eq!(select_misc_items(&all, &reversed, &vec![]), vec![item("f2", "font"), item("f1", "font")]);
    let builtin = vec![("font".to_string(), vec!["builtin-font-korean".to_string()])];
    assert_eq!(select_misc_items(&all, &builtin, &vec!["builtin-font-korean".to_string()]), vec![MiscItem {
        id: "builtin-font-korean".to_string(),
        name: "korean".to_string(),
        item_type: "font".to_string(),
        skin_file_path: "font_builtin_korean.skin_file".to_string(),
    }]);
    assert!(select_misc_items(&all, &builtin, &vec![]).is_empty());
}
