//! Edits to the configuration as the settings commands make them on the
//! stored JSON document, the injection mode and the configuration lock.
use vstd::prelude::*;
use crate::text::{str_eq, push_str};
use crate::json::{Json, jget, members_get, get_str};
use crate::config::{SavedConfig, SkinData};
use crate::flow::Skin;
use crate::skin_paths::{last_segment, stem_of};

verus! {

proof fn lemma_members_get_update(es: Seq<(String, Json)>, i: int, k: String, v: Json, other: Seq<char>)
    requires
        0 <= i < es.len(),
        es[i].0@ == k@,
        forall|j: int| 0 <= j < i ==> es[j].0@ != k@,
    ensures
        members_get(es.update(i, (k, v)), k@) == Some(v),
        other != k@ ==> members_get(es.update(i, (k, v)), other) == members_get(es, other),
    decreases i,
{
    if i > 0 {
        assert(es.update(i, (k, v)).drop_first() =~= es.drop_first().update(i - 1, (k, v)));
        assert forall|j: int| 0 <= j < i - 1 implies es.drop_first()[j].0@ != k@ by {
            assert(es.drop_first()[j] == es[j + 1]);
        }
        lemma_members_get_update(es.drop_first(), i - 1, k, v, other);
    } else {
        assert(es.update(0, (k, v)).drop_first() =~= es.drop_first());
    }
}

proof fn lemma_members_get_push(es: Seq<(String, Json)>, k: String, v: Json, other: Seq<char>)
    requires
        forall|j: int| 0 <= j < es.len() ==> es[j].0@ != k@,
    ensures
        members_get(es.push((k, v)), k@) == Some(v),
        other != k@ ==> members_get(es.push((k, v)), other) == members_get(es, other),
    decreases es.len(),
{
    assert(es.push((k, v))[es.len() as int] == (k, v));
    if es.len() > 0 {
        assert(es.push((k, v))[0] == es[0]);
        assert(es.push((k, v)).drop_first() =~= es.drop_first().push((k, v)));
        assert forall|j: int| 0 <= j < es.drop_first().len() implies es.drop_first()[j].0@ != k@ by {
            assert(es.drop_first()[j] == es[j + 1]);
        }
        lemma_members_get_push(es.drop_first(), k, v, other);
    } else {
        assert(es.push((k, v)).drop_first() =~= Seq::<(String, Json)>::empty());
        assert(es.push((k, v))[0] == (k, v));
    }
}

/// Sets the member `key` of an object (a null value becomes an object first):
/// the member reads `value` afterwards and every other member is unchanged.
pub fn json_set(obj: &mut Json, key: &str, value: Json)
    requires
        *old(obj) is Object || *old(obj) is Null,
    ensures
        *final(obj) is Object,
        jget(*final(obj), key@) == Some(value),
        forall|other: Seq<char>| other != key@ ==> jget(*final(obj), other) == jget(*old(obj), other),
{
    let mut es: Vec<(String, Json)> = match obj {
        Json::Object(members) => {
            let mut taken = Vec::new();
            std::mem::swap(&mut taken, members);
            taken
        },
        _ => Vec::new(),
    };
    let ghost orig = es@;
    assert(forall|other: Seq<char>| jget(*old(obj), other) == members_get(orig, other));
    let k = String::from_str(key);
    let mut i: usize = 0;
    while i < es.len() && !str_eq(es[i].0.as_str(), key)
        invariant
            0 <= i <= es.len(),
            es@ == orig,
            forall|other: Seq<char>| jget(*old(obj), other) == members_get(orig, other),
            forall|j: int| 0 <= j < i ==> es@[j].0@ != key@,
        decreases es.len() - i,
    {
        i = i + 1;
    }
    if i < es.len() {
        es.set(i, (k, value));
        proof {
            assert forall|other: Seq<char>| other != key@ implies members_get(es@, other) == members_get(orig, other) by {
                lemma_members_get_update(orig, i as int, es@[i as int].0, value, other);
            }
            lemma_members_get_update(orig, i as int, es@[i as int].0, value, seq![]);
        }
    } else {
        es.push((k, value));
        proof {
            assert forall|other: Seq<char>| other != key@ implies members_get(es@, other) == members_get(orig, other) by {
                lemma_members_get_push(orig, es@.last().0, value, other);
            }
            lemma_members_get_push(orig, es@.last().0, value, seq![]);
        }
    }
    let ghost fin = es@;
    assert(forall|other: Seq<char>| other != key@ ==> #[trigger] members_get(fin, other) == members_get(orig, other));
    *obj = Json::Object(es);
    assert forall|other: Seq<char>| other != key@ implies jget(*obj, other) == jget(*old(obj), other) by {
        assert(jget(*obj, other) == members_get(fin, other));
        assert(members_get(fin, other) == members_get(orig, other));
    }
}

/// Stores whether the skin data updates itself.
pub fn set_auto_update_data(cfg: &mut Json, value: bool)
    requires
        *old(cfg) is Object || *old(cfg) is Null,
    ensures
        *final(cfg) is Object,
        jget(*final(cfg), "auto_update_data"@) == Some(Json::Bool(value)),
        forall|other: Seq<char>| other != "auto_update_data"@ ==> jget(*final(cfg), other) == jget(*old(cfg), other),
{
    json_set(cfg, "auto_update_data", Json::Bool(value));
}

/// Stores the commit the skin data was last updated to.
pub fn set_last_data_commit(cfg: &mut Json, sha: &str)
    requires
        *old(cfg) is Object || *old(cfg) is Null,
    ensures
        *final(cfg) is Object,
        jget(*final(cfg), "last_data_commit"@) matches Some(Json::Str(s)) && s@ == sha@,
        forall|other: Seq<char>| other != "last_data_commit"@ ==> jget(*final(cfg), other) == jget(*old(cfg), other),
{
    json_set(cfg, "last_data_commit", Json::Str(String::from_str(sha)));
}

/// Stores the selection the interface saves (each value already in JSON form);
/// the automatic-update flag is set on where it is missing, and other members
/// stay as they were.
pub fn save_selected_skins(
    config: &mut Json,
    league_path: Json,
    skins: Json,
    favorites: Json,
    theme: Json,
    selected_misc_items: Json,
)
    requires
        *old(config) is Object || *old(config) is Null,
    ensures
        *final(config) is Object,
        jget(*final(config), "league_path"@) == Some(league_path),
        jget(*final(config), "skins"@) == Some(skins),
        jget(*final(config), "favorites"@) == Some(favorites),
        jget(*final(config), "theme"@) == Some(theme),
        jget(*final(config), "selected_misc_items"@) == Some(selected_misc_items),
        jget(*final(config), "auto_update_data"@) == match jget(*old(config), "auto_update_data"@) {
            Some(v) => Some(v),
            None => Some(Json::Bool(true)),
        },
        forall|other: Seq<char>|
            other != "league_path"@ && other != "skins"@ && other != "favorites"@ && other != "theme"@
                && other != "selected_misc_items"@ && other != "auto_update_data"@
                ==> jget(*final(config), other) == jget(*old(config), other),
{
    proof {
        reveal_strlit("league_path");
        reveal_strlit("skins");
        reveal_strlit("favorites");
        reveal_strlit("theme");
        reveal_strlit("selected_misc_items");
        reveal_strlit("auto_update_data");
    }
    assert("favorites"@[0] != "league_path"@[0]);
    assert("theme"@[0] != "league_path"@[0]);
    assert("selected_misc_items"@[0] != "league_path"@[0]);
    assert("auto_update_data"@[0] != "league_path"@[0]);
    assert("favorites"@[0] != "skins"@[0]);
    assert("theme"@[0] != "skins"@[0]);
    assert("selected_misc_items"@[1] != "skins"@[1]);
    assert("auto_update_data"@[0] != "skins"@[0]);
    let ghost lp = league_path;
    let ghost sk = skins;
    json_set(config, "league_path", league_path);
    json_set(config, "skins", skins);
    assert(jget(*config, "league_path"@) == Some(lp));
    json_set(config, "favorites", favorites);
    assert(jget(*config, "league_path"@) == Some(lp));
    assert(jget(*config, "skins"@) == Some(sk));
    json_set(config, "theme", theme);
    assert(jget(*config, "league_path"@) == Some(lp));
    assert(jget(*config, "skins"@) == Some(sk));
    json_set(config, "selected_misc_items", selected_misc_items);
    assert(jget(*config, "league_path"@) == Some(lp));
    assert(jget(*config, "skins"@) == Some(sk));
    if config.get("auto_update_data").is_none() {
        json_set(config, "auto_update_data", Json::Bool(true));
    }
}

/// The characters of a string in lower case, as `str::to_lowercase` gives them.
pub uninterp spec fn lowercase(s: Seq<char>) -> Seq<char>;

/// `str::to_lowercase`; the result is named `lowercase`.
#[verifier::external_body]
pub(crate) fn to_lowercase(s: &str) -> (r: String)
    ensures
        r@ == lowercase(s@),
{
    s.to_lowercase()
}

/// When skins are injected: in champion select, or from the lobby (instant-assign queues).
#[derive(Debug, PartialEq, Eq, Structural)]
pub enum InjectionMode {
    ChampSelect,
    Lobby,
}

/// The injection mode a configuration asks for: the lobby for `lobby` or
/// `lobby_mode` in any case, champion select otherwise.
pub open spec fn injection_mode_of(cfg: Json) -> InjectionMode {
    match get_str(cfg, "injection_mode"@) {
        Some(m) => if lowercase(m) == "lobby"@ || lowercase(m) == "lobby_mode"@ {
            InjectionMode::Lobby
        } else {
            InjectionMode::ChampSelect
        },
        None => InjectionMode::ChampSelect,
    }
}

/// Reads the injection mode from the configuration (`Json::Null` where it could not be read).
pub fn read_injection_mode(cfg: &Json) -> (m: InjectionMode)
    ensures
        m == injection_mode_of(*cfg),
{
    match cfg.get_str("injection_mode") {
        Some(s) => {
            let lower = to_lowercase(s);
            if str_eq(lower.as_str(), "lobby") || str_eq(lower.as_str(), "lobby_mode") {
                InjectionMode::Lobby
            } else {
                InjectionMode::ChampSelect
            }
        },
        None => InjectionMode::ChampSelect,
    }
}

/// Whether the configuration turns on verbose party-mode logging (`party_mode.verbose_logging`).
pub fn party_mode_verbose(cfg: &Json) -> (r: Option<bool>)
    ensures
        r == match jget(*cfg, "party_mode"@) {
            Some(pm) => crate::json::get_bool(pm, "verbose_logging"@),
            None => None,
        },
{
    match cfg.get("party_mode") {
        Some(pm) => pm.get_bool("verbose_logging"),
        None => None,
    }
}

/// A request to inject skins into a game folder.
#[derive(Debug, PartialEq)]
pub struct SkinInjectionRequest {
    pub league_path: String,
    pub skins: Vec<Skin>,
}

/// Whether a path reads the same as a `Path` on every platform and ends in a
/// file name: no `\\` or `:` (a separator and a drive mark on Windows), no
/// leading `//` (a network share there), and a last `/`-separated part that is
/// not empty, `.` or `..`.
pub open spec fn portable_file_path(p: Seq<char>) -> bool {
    &&& !p.contains('\\')
    &&& !p.contains(':')
    &&& !(p.len() >= 2 && p[0] == '/' && p[1] == '/')
    &&& last_segment(p).len() > 0
    &&& last_segment(p) != "."@
    &&& last_segment(p) != ".."@
}

/// The stem of such a path: its last part without the extension.
pub open spec fn file_stem_of(p: Seq<char>) -> Seq<char> {
    stem_of(last_segment(p))
}

/// The stem of a file path, through `Path::file_stem` (then `OsStr::to_str`).
/// As documented, the file name is the last component of the path, and its stem
/// is the part before the final `.`, or the whole name where it has no `.` or
/// only a leading one. For a portable path that is `file_stem_of` the path;
/// for other paths (drives, `\\` separators, a final `/`, `.` or `..`) the
/// result is not stated.
#[verifier::external_body]
fn path_file_stem(path: &str) -> (r: Option<String>)
    ensures
        r is Some && r->0@ == file_stem_of(path@) || !portable_file_path(path@),
{
    std::path::Path::new(path).file_stem().and_then(|s| s.to_str()).map(|s| s.to_string())
}

/// The name a shared skin goes by: the chosen skin's archive name when known,
/// `"Champion {c} Skin {s}"` otherwise.
pub open spec fn skin_name_for(champion_id: u32, skin_id: u32, stem: Option<Seq<char>>) -> Seq<char> {
    match stem {
        Some(s) => s,
        None => "Champion "@ + crate::text::dec(champion_id as nat) + " Skin "@ + crate::text::dec(skin_id as nat),
    }
}

/// The name a shared skin goes by, from the stem of its archive's file name
/// where there is one.
pub fn skin_name_from_stem(champion_id: u32, skin_id: u32, stem: Option<String>) -> (r: String)
    ensures
        r@ == skin_name_for(champion_id, skin_id, match stem { Some(x) => Some(x@), None => None }),
{
    match stem {
        Some(x) => x,
        None => {
            let mut name = String::from_str("Champion ");
            crate::text::write_dec(&mut name, champion_id as u64);
            push_str(&mut name, " Skin ");
            crate::text::write_dec(&mut name, skin_id as u64);
            name
        },
    }
}

/// The first chosen skin matching champion and skin.
pub open spec fn chosen_skin(skins: Seq<SkinData>, champion_id: u32, skin_id: u32) -> Option<SkinData>
    decreases skins.len(),
{
    if skins.len() == 0 {
        None
    } else if skins[0].champion_id == champion_id && skins[0].skin_id == skin_id {
        Some(skins[0])
    } else {
        chosen_skin(skins.drop_first(), champion_id, skin_id)
    }
}

/// Names a shared skin from the configuration: none when the skin is not among
/// the chosen ones; else the stem of its archive, or a generic name. For an
/// archive path that is not portable the stem is what the platform's
/// `Path::file_stem` reads, or the generic name where it reads none.
pub fn get_skin_name_from_config(config: &SavedConfig, champion_id: u32, skin_id: u32) -> (r: Option<String>)
    ensures
        chosen_skin(config.skins@, champion_id, skin_id) is None ==> r is None,
        chosen_skin(config.skins@, champion_id, skin_id) matches Some(s) ==> r is Some && (
            s.skin_file is None ==> r->0@ == skin_name_for(champion_id, skin_id, None)) && (
            s.skin_file is Some && portable_file_path(s.skin_file->0@)
                ==> r->0@ == skin_name_for(champion_id, skin_id, Some(file_stem_of(s.skin_file->0@)))),
{
    let mut i: usize = 0;
    proof {
        assert(config.skins@.skip(0) =~= config.skins@);
    }
    while i < config.skins.len()
        invariant
            0 <= i <= config.skins.len(),
            chosen_skin(config.skins@, champion_id, skin_id) == chosen_skin(config.skins@.skip(i as int), champion_id, skin_id),
        decreases config.skins.len() - i,
    {
        proof {
            assert(config.skins@.skip(i as int).drop_first() =~= config.skins@.skip(i as int + 1));
            assert(config.skins@.skip(i as int)[0] == config.skins@[i as int]);
        }
        let s = &config.skins[i];
        if s.champion_id == champion_id && s.skin_id == skin_id {
            let stem = match &s.skin_file {
                Some(f) => path_file_stem(f.as_str()),
                None => None,
            };
            return Some(skin_name_from_stem(champion_id, skin_id, stem));
        }
        i = i + 1;
    }
    None
}

} // verus!
