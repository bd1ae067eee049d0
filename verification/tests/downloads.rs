use osskins::downloads::{
    batch_item_id, batch_status, build_skin_download_url, champion_data_describes,
    champion_not_found_message, champions_json_array, data_update_first_step,
    data_update_from_changes, download_failure_message, download_outcome,
    extract_champion_id_from_path, extract_skin_id_from_path, fallback_champion_name,
    get_changed_champion_ids, normalize_champion_name, record_data_commit, retry_delay_ms,
    skin_file_name, DataUpdateStep, LocalManifest, SkinDownloadRequest, MAX_RETRIES,
};
use osskins::json::{Json, JsonNumber};

fn obj(members: Vec<(&str, Json)>) -> Json {
    Json::Object(members.into_iter().map(|(k, v)| (k.to_string(), v)).collect())
}

fn text(s: &str) -> Json {
    Json::Str(s.to_string())
}

fn num(n: u64) -> Json {
    Json::Number(JsonNumber::PosInt(n))
}

fn request(chroma: Option<u32>, form: Option<u32>) -> SkinDownloadRequest {
    SkinDownloadRequest {
        champion_id: 103,
        skin_id: 103001,
        chroma_id: chroma,
        form_id: form,
        champion_name: "Ahri".to_string(),
        file_name: "Dynasty Ahri".to_string(),
    }
}

#[test]
fn download_url_for_chroma_prefers_chroma_over_form() {
    assert_eq!(
        build_skin_download_url(103, 103001, Some(103002), Some(103009)),
        "https://raw.githubusercontent.com/Alban1911/LeagueSkins/main/skins/103/103001/103002/103002.zip"
    );
}

#[test]
fn download_url_for_form() {
    assert_eq!(
        build_skin_download_url(1, 1001, None, Some(1050)),
        "https://raw.githubusercontent.com/Alban1911/LeagueSkins/main/skins/1/1001/1050/1050.zip"
    );
}

#[test]
fn batch_item_ids_name_the_variant() {
    assert_eq!(batch_item_id(&request(None, None)), "103_103001_0");
    assert_eq!(batch_item_id(&request(Some(103002), Some(7))), "103_103001_103002");
    assert_eq!(batch_item_id(&request(None, Some(7))), "103_103001_7");
}

#[test]
fn batch_status_cases() {
    assert_eq!(batch_status(true, 3, 0), "canceled");
    assert_eq!(batch_status(false, 3, 0), "completed");
    assert_eq!(batch_status(false, 0, 2), "failed");
    assert_eq!(batch_status(false, 1, 2), "completed");
    assert_eq!(batch_status(false, 0, 0), "completed");
}

#[test]
fn ids_from_repository_paths() {
    assert_eq!(extract_champion_id_from_path("skins/103/103001/103001.zip"), Some(103));
    assert_eq!(extract_skin_id_from_path("skins/103/103001/103001.zip"), Some(103001));
    assert_eq!(extract_champion_id_from_path("skins/+7/x"), Some(7));
    assert_eq!(extract_champion_id_from_path("docs/103/103001.zip"), None);
    assert_eq!(extract_champion_id_from_path("skins/abc/1.zip"), None);
    assert_eq!(extract_skin_id_from_path("skins/103"), None);
    assert_eq!(extract_champion_id_from_path("skins/4294967296/1.zip"), None);
}

#[test]
fn changed_champions_are_distinct_and_in_order() {
    let files = vec![
        "skins/103/103001/103001.zip".to_string(),
        "README.md".to_string(),
        "skins/1/1001/1001.zip".to_string(),
        "skins/103/103002/103002.zip".to_string(),
        "skins/55/info.json".to_string(),
    ];
    assert_eq!(get_changed_champion_ids(&files), vec![103, 1]);
    assert_eq!(get_changed_champion_ids(&vec![]), Vec::<u32>::new());
}

fn done_champions(step: DataUpdateStep) -> Vec<String> {
    match step {
        DataUpdateStep::Done(r) => {
            assert!(r.success);
            assert_eq!(r.error, None);
            r.updated_champions
        }
        DataUpdateStep::Compare { .. } => panic!("expected a finished update"),
    }
}

#[test]
fn data_update_without_local_data_updates_all() {
    assert_eq!(done_champions(data_update_first_step(false, None, Ok("abc".to_string()))), vec!["all"]);
}

#[test]
fn data_update_when_latest_commit_unknown() {
    assert_eq!(done_champions(data_update_first_step(true, Some("abc".to_string()), Err("offline".to_string()))), vec!["repo"]);
}

#[test]
fn data_update_up_to_date_updates_nothing() {
    assert_eq!(done_champions(data_update_first_step(true, Some("abc".to_string()), Ok("abc".to_string()))), Vec::<String>::new());
}

#[test]
fn data_update_without_stored_commit_updates_all() {
    assert_eq!(done_champions(data_update_first_step(true, None, Ok("abc".to_string()))), vec!["all"]);
}

#[test]
fn data_update_compares_old_and_new_commit() {
    match data_update_first_step(true, Some("old".to_string()), Ok("new".to_string())) {
        DataUpdateStep::Compare { base, head } => {
            assert_eq!(base, "old");
            assert_eq!(head, "new");
        }
        DataUpdateStep::Done(_) => panic!("expected a comparison"),
    }
}

#[test]
fn data_update_from_known_changes() {
    let r = data_update_from_changes(Ok(vec![103, 1]));
    assert!(r.success);
    assert_eq!(r.updated_champions, vec!["103", "1"]);
    assert_eq!(data_update_from_changes(Ok(vec![])).updated_champions, vec!["repo"]);
    assert_eq!(data_update_from_changes(Err("boom".to_string())).updated_champions, vec!["repo"]);
}

#[test]
fn recording_a_commit_keeps_the_champions() {
    let mut m = LocalManifest::default();
    record_data_commit(&mut m, "sha1".to_string(), "2024-01-01T00:00:00Z".to_string());
    assert_eq!(m.last_commit, Some("sha1".to_string()));
    assert_eq!(m.last_updated, Some("2024-01-01T00:00:00Z".to_string()));
    assert!(m.champions.is_empty());
}

#[test]
fn skin_file_names() {
    assert_eq!(skin_file_name("Dynasty Ahri", false, Some(5)), "Dynasty Ahri.skin_file");
    assert_eq!(skin_file_name("Dynasty Ahri", true, Some(103002)), "Dynasty Ahri_chroma_103002.skin_file");
    assert_eq!(skin_file_name("X", true, None), "X_chroma_0.skin_file");
}

#[test]
fn retry_delays_double() {
    assert_eq!(MAX_RETRIES, 3);
    assert_eq!(retry_delay_ms(0), 0);
    assert_eq!(retry_delay_ms(1), 1000);
    assert_eq!(retry_delay_ms(2), 2000);
    assert_eq!(retry_delay_ms(3), 4000);
}

#[test]
fn download_failure_messages() {
    assert_eq!(download_failure_message(4, Some("timeout".to_string())), "Download failed after 4 attempts: timeout");
    assert_eq!(download_failure_message(4, None), "Download failed after 4 attempts: Unknown error");
}

#[test]
fn download_outcomes() {
    assert_eq!(download_outcome(Ok(())), ("completed", Ok(())));
    assert_eq!(download_outcome(Err("canceled".to_string())), ("canceled", Err("Download canceled".to_string())));
    assert_eq!(download_outcome(Err("HTTP 404".to_string())), ("failed", Err("HTTP 404".to_string())));
}

#[test]
fn champion_data_lookup() {
    let ahri = obj(vec![("id", num(103)), ("name", text("Ahri"))]);
    assert!(champion_data_describes(&ahri, 103));
    assert!(!champion_data_describes(&ahri, 104));
    assert!(!champion_data_describes(&obj(vec![("id", num(103))]), 103));
    assert!(!champion_data_describes(&obj(vec![("id", text("103")), ("name", text("Ahri"))]), 103));
    assert_eq!(fallback_champion_name(42), "champion_42");
    assert_eq!(champion_not_found_message(42), "Champion data not found for ID: 42");
}

#[test]
fn champion_names_normalize() {
    assert_eq!(normalize_champion_name("Kai'Sa"), "kaisa");
    assert_eq!(normalize_champion_name("Miss Fortune"), "missfortune");
    assert_eq!(normalize_champion_name("AHRI"), "ahri");
}

#[test]
fn champions_json_array_joins_files() {
    assert_eq!(champions_json_array(&vec!["{\"id\":1}".to_string(), "{\"id\":2}".to_string()]), "[{\"id\":1},{\"id\":2}]");
    assert_eq!(champions_json_array(&vec![]), "[]");
}
