//! Skin downloads from the skins repository and the check for data updates.
use vstd::prelude::*;
use std::collections::HashMap;
use crate::text::{dec, str_eq, push_str, write_dec, parse_u32, parse_u32_of, u64_to_string};
use crate::lockfile::{split_on, split_chars};

verus! {

/// A skin to download.
#[derive(Debug, PartialEq)]
pub struct SkinDownloadRequest {
    pub champion_id: u32,
    pub skin_id: u32,
    pub chroma_id: Option<u32>,
    pub form_id: Option<u32>,
    pub champion_name: String,
    pub file_name: String,
}

/// The base of raw file addresses in the skins repository.
pub open spec fn league_skins_raw_base() -> Seq<char> {
    "https://raw.githubusercontent.com/Alban1911/LeagueSkins/main"@
}

/// Where a skin's archive lives: `skins/{champion}/{skin}/{skin}.zip`, or
/// `skins/{champion}/{skin}/{variant}/{variant}.zip` for a chroma (preferred) or form.
pub open spec fn skin_download_url(champion_id: u32, skin_id: u32, chroma_id: Option<u32>, form_id: Option<u32>) -> Seq<char> {
    let base = league_skins_raw_base() + "/skins/"@ + dec(champion_id as nat) + "/"@ + dec(skin_id as nat);
    match chroma_id {
        Some(c) => base + "/"@ + dec(c as nat) + "/"@ + dec(c as nat) + ".zip"@,
        None => match form_id {
            Some(f) => base + "/"@ + dec(f as nat) + "/"@ + dec(f as nat) + ".zip"@,
            None => base + "/"@ + dec(skin_id as nat) + ".zip"@,
        },
    }
}

/// Builds the download address of a skin, chroma or form.
pub fn build_skin_download_url(champion_id: u32, skin_id: u32, chroma_id: Option<u32>, form_id: Option<u32>) -> (url: String)
    ensures
        url@ == skin_download_url(champion_id, skin_id, chroma_id, form_id),
{
    let mut url = String::new();
    push_str(&mut url, "https://raw.githubusercontent.com/Alban1911/LeagueSkins/main");
    push_str(&mut url, "/skins/");
    write_dec(&mut url, champion_id as u64);
    push_str(&mut url, "/");
    write_dec(&mut url, skin_id as u64);
    let variant: Option<u32> = match chroma_id {
        Some(c) => Some(c),
        None => form_id,
    };
    match variant {
        Some(v) => {
            push_str(&mut url, "/");
            write_dec(&mut url, v as u64);
            push_str(&mut url, "/");
            write_dec(&mut url, v as u64);
            push_str(&mut url, ".zip");
        },
        None => {
            push_str(&mut url, "/");
            write_dec(&mut url, skin_id as u64);
            push_str(&mut url, ".zip");
        },
    }
    url
}

/// The id of a batch item: `"{champion}_{skin}_{chroma, else form, else 0}"`.
pub open spec fn batch_item_id_of(r: SkinDownloadRequest) -> Seq<char> {
    let variant: nat = match r.chroma_id {
        Some(c) => c as nat,
        None => match r.form_id {
            Some(f) => f as nat,
            None => 0,
        },
    };
    dec(r.champion_id as nat) + "_"@ + dec(r.skin_id as nat) + "_"@ + dec(variant)
}

/// Names a batch item.
pub fn batch_item_id(r: &SkinDownloadRequest) -> (id: String)
    ensures
        id@ == batch_item_id_of(*r),
{
    let variant: u32 = match r.chroma_id {
        Some(c) => c,
        None => match r.form_id {
            Some(f) => f,
            None => 0,
        },
    };
    let mut id = String::new();
    write_dec(&mut id, r.champion_id as u64);
    push_str(&mut id, "_");
    write_dec(&mut id, r.skin_id as u64);
    push_str(&mut id, "_");
    write_dec(&mut id, variant as u64);
    id
}

/// The final status of a batch: canceled, else failed when nothing succeeded and
/// something failed, else completed.
pub open spec fn batch_status_of(canceled: bool, successful: nat, failed: nat) -> Seq<char> {
    if canceled {
        "canceled"@
    } else if failed == 0 {
        "completed"@
    } else if successful == 0 {
        "failed"@
    } else {
        "completed"@
    }
}

/// Decides the final status of a batch download.
pub fn batch_status(canceled: bool, successful: usize, failed: usize) -> (s: &'static str)
    ensures
        s@ == batch_status_of(canceled, successful as nat, failed as nat),
{
    if canceled {
        "canceled"
    } else if failed == 0 {
        "completed"
    } else if successful == 0 {
        "failed"
    } else {
        "completed"
    }
}

/// The champion id in a repository path `skins/{champion}/...`.
pub open spec fn champion_id_in_path(path: Seq<char>) -> Option<u32> {
    let segs = split_on(path, '/');
    if segs.len() >= 2 && segs[0] == "skins"@ {
        parse_u32_of(segs[1])
    } else {
        None
    }
}

/// The skin id in a repository path `skins/{champion}/{skin}/...`.
pub open spec fn skin_id_in_path(path: Seq<char>) -> Option<u32> {
    let segs = split_on(path, '/');
    if segs.len() >= 3 && segs[0] == "skins"@ {
        parse_u32_of(segs[2])
    } else {
        None
    }
}

/// Reads the champion id out of a repository path.
pub fn extract_champion_id_from_path(path: &str) -> (r: Option<u32>)
    ensures
        r == champion_id_in_path(path@),
{
    let segs = split_chars(path, '/');
    if segs.len() >= 2 && str_eq(segs[0].as_str(), "skins") {
        proof {
            assert(crate::text::views(segs@)[0] == segs@[0]@);
            assert(crate::text::views(segs@)[1] == segs@[1]@);
        }
        parse_u32(segs[1].as_str())
    } else {
        proof {
            if segs@.len() >= 2 {
                assert(crate::text::views(segs@)[0] == segs@[0]@);
            }
        }
        None
    }
}

/// Reads the skin id out of a repository path.
pub fn extract_skin_id_from_path(path: &str) -> (r: Option<u32>)
    ensures
        r == skin_id_in_path(path@),
{
    let segs = split_chars(path, '/');
    if segs.len() >= 3 && str_eq(segs[0].as_str(), "skins") {
        proof {
            assert(crate::text::views(segs@)[0] == segs@[0]@);
            assert(crate::text::views(segs@)[2] == segs@[2]@);
        }
        parse_u32(segs[2].as_str())
    } else {
        proof {
            if segs@.len() >= 3 {
                assert(crate::text::views(segs@)[0] == segs@[0]@);
            }
        }
        None
    }
}

/// Whether a changed repository file is a skin archive: under `skins/`, ending in `.zip`.
pub open spec fn is_skin_archive(path: Seq<char>) -> bool {
    path.len() >= 6 && path.subrange(0, 6) == "skins/"@ && path.len() >= 4
        && path.subrange(path.len() - 4, path.len() as int) == ".zip"@
}

fn is_skin_archive_exec(path: &str) -> (r: bool)
    ensures
        r == is_skin_archive(path@),
{
    proof {
        reveal_strlit("skins/");
        reveal_strlit(".zip");
    }
    let n = path.unicode_len();
    if n < 6 {
        return false;
    }
    let head = path.substring_char(0, 6);
    let tail = path.substring_char(n - 4, n);
    str_eq(head, "skins/") && str_eq(tail, ".zip")
}

/// The distinct champions whose skin archives changed, in order of first change.
pub open spec fn changed_champions_of(paths: Seq<Seq<char>>) -> Seq<u32>
    decreases paths.len(),
{
    if paths.len() == 0 {
        seq![]
    } else {
        let prev = changed_champions_of(paths.drop_last());
        let p = paths.last();
        if is_skin_archive(p) {
            match champion_id_in_path(p) {
                Some(c) => if prev.contains(c) { prev } else { prev.push(c) },
                None => prev,
            }
        } else {
            prev
        }
    }
}

/// Collects the champions whose skin archives changed between two commits.
pub fn get_changed_champion_ids(changed_files: &Vec<String>) -> (ids: Vec<u32>)
    ensures
        ids@ == changed_champions_of(crate::text::views(changed_files@)),
{
    let mut ids: Vec<u32> = Vec::new();
    let mut i: usize = 0;
    while i < changed_files.len()
        invariant
            0 <= i <= changed_files.len(),
            ids@ == changed_champions_of(crate::text::views(changed_files@.take(i as int))),
        decreases changed_files.len() - i,
    {
        let f = changed_files[i].as_str();
        proof {
            assert(crate::text::views(changed_files@.take(i as int + 1)).drop_last()
                =~= crate::text::views(changed_files@.take(i as int)));
            assert(crate::text::views(changed_files@.take(i as int + 1)).last() == changed_files@[i as int]@);
        }
        if is_skin_archive_exec(f) {
            if let Some(c) = extract_champion_id_from_path(f) {
                if !crate::sorting::contains_u32(&ids, c) {
                    ids.push(c);
                }
            }
        }
        i = i + 1;
    }
    proof {
        assert(changed_files@.take(i as int) =~= changed_files@);
    }
    ids
}

/// The outcome of a check for data updates.
#[derive(Debug, PartialEq)]
pub struct DataUpdateResult {
    pub success: bool,
    pub error: Option<String>,
    /// Changed champion ids, or `"all"` (everything must be fetched) or `"repo"`
    /// (the repository changed in ways not attributed to champions).
    pub updated_champions: Vec<String>,
}

/// The first step of a data-update check.
#[derive(Debug, PartialEq)]
pub enum DataUpdateStep {
    /// The check is over.
    Done(DataUpdateResult),
    /// Ask the repository which files changed between these commits.
    Compare { base: String, head: String },
}

/// The answer of a data-update check that needs nothing from the repository:
/// with no local champion data everything must be fetched, so the check ends
/// at once; otherwise (`None`) the latest commit must be asked for.
pub fn data_update_without_remote(champions_dir_exists: bool) -> (r: Option<DataUpdateResult>)
    ensures
        r is Some <==> !champions_dir_exists,
        r matches Some(res) ==> res.success && res.error is None
            && crate::text::views(res.updated_champions@) == seq!["all"@],
{
    if champions_dir_exists {
        None
    } else {
        let mut v: Vec<String> = Vec::new();
        v.push(String::from_str("all"));
        assert(crate::text::views(v@) =~= seq!["all"@]);
        Some(DataUpdateResult { success: true, error: None, updated_champions: v })
    }
}

/// Decides a data-update check from what is known locally and the latest commit
/// (or the error fetching it): no local data means everything; an unreachable
/// repository means an update of the repository; the same commit means nothing;
/// no stored commit means everything; else the changes must be compared.
pub fn data_update_first_step(
    champions_dir_exists: bool,
    stored_commit: Option<String>,
    latest_commit: Result<String, String>,
) -> (r: DataUpdateStep)
    ensures
        match r {
            DataUpdateStep::Done(res) => res.success && res.error is None && crate::text::views(res.updated_champions@) == if !champions_dir_exists {
                seq!["all"@]
            } else if latest_commit is Err {
                seq!["repo"@]
            } else if stored_commit matches Some(s) && s@ == latest_commit->Ok_0@ {
                Seq::<Seq<char>>::empty()
            } else {
                seq!["all"@]
            },
            DataUpdateStep::Compare { base, head } => champions_dir_exists && latest_commit is Ok
                && (stored_commit matches Some(s) && s@ != latest_commit->Ok_0@ && base@ == s@ && head@ == latest_commit->Ok_0@),
        },
        r is Done ==> !(champions_dir_exists && latest_commit is Ok && (stored_commit matches Some(s) && s@ != latest_commit->Ok_0@)),
{
    if let Some(res) = data_update_without_remote(champions_dir_exists) {
        return DataUpdateStep::Done(res);
    }
    let latest = match latest_commit {
        Ok(l) => l,
        Err(_) => {
            let mut v: Vec<String> = Vec::new();
            v.push(String::from_str("repo"));
            assert(crate::text::views(v@) =~= seq!["repo"@]);
            return DataUpdateStep::Done(DataUpdateResult { success: true, error: None, updated_champions: v });
        },
    };
    match stored_commit {
        Some(s) => {
            if str_eq(s.as_str(), latest.as_str()) {
                let v: Vec<String> = Vec::new();
                assert(crate::text::views(v@) =~= Seq::<Seq<char>>::empty());
                DataUpdateStep::Done(DataUpdateResult { success: true, error: None, updated_champions: v })
            } else {
                DataUpdateStep::Compare { base: s, head: latest }
            }
        },
        None => {
            let mut v: Vec<String> = Vec::new();
            v.push(String::from_str("all"));
            assert(crate::text::views(v@) =~= seq!["all"@]);
            DataUpdateStep::Done(DataUpdateResult { success: true, error: None, updated_champions: v })
        },
    }
}

/// The champions to update once the changes are known: their ids, or
/// `"repo"` when none is attributed to a champion or the comparison failed.
pub open spec fn updated_from_changes(changes: Result<Seq<u32>, ()>) -> Seq<Seq<char>> {
    match changes {
        Ok(ids) => if ids.len() == 0 { seq!["repo"@] } else { ids.map_values(|c: u32| dec(c as nat)) },
        Err(_) => seq!["repo"@],
    }
}

/// Completes a data-update check from the comparison of commits.
pub fn data_update_from_changes(changes: Result<Vec<u32>, String>) -> (res: DataUpdateResult)
    ensures
        res.success,
        res.error is None,
        crate::text::views(res.updated_champions@) == updated_from_changes(match changes {
            Ok(v) => Ok(v@),
            Err(_) => Err(()),
        }),
{
    let mut out: Vec<String> = Vec::new();
    match changes {
        Ok(ids) => {
            let mut i: usize = 0;
            while i < ids.len()
                invariant
                    0 <= i <= ids.len(),
                    crate::text::views(out@) == ids@.take(i as int).map_values(|c: u32| dec(c as nat)),
                decreases ids.len() - i,
            {
                let ghost before = out@;
                out.push(u64_to_string(ids[i] as u64));
                proof {
                    assert(ids@.take(i as int + 1) =~= ids@.take(i as int).push(ids@[i as int]));
                    assert(crate::text::views(out@) =~= crate::text::views(before).push(dec(ids@[i as int] as nat)));
                    assert(crate::text::views(out@) =~= ids@.take(i as int + 1).map_values(|c: u32| dec(c as nat)));
                }
                i = i + 1;
            }
            proof {
                assert(ids@.take(i as int) =~= ids@);
            }
            if out.len() == 0 {
                out.push(String::from_str("repo"));
                assert(crate::text::views(out@) =~= seq!["repo"@]);
            }
        },
        Err(_) => {
            out.push(String::from_str("repo"));
            assert(crate::text::views(out@) =~= seq!["repo"@]);
        },
    }
    DataUpdateResult { success: true, error: None, updated_champions: out }
}

/// A skin as the local manifest records it.
#[derive(Debug, PartialEq)]
pub struct SkinManifestEntry {
    pub id: u32,
    pub name: String,
    pub has_chromas: bool,
    pub chroma_ids: Vec<u32>,
    pub has_forms: bool,
    pub form_ids: Vec<u32>,
    pub file_size: Option<u64>,
    pub downloaded: bool,
}

/// A champion as the local manifest records it.
#[derive(Debug, PartialEq)]
pub struct ChampionManifestEntry {
    pub id: u32,
    pub name: String,
    pub skins: HashMap<u32, SkinManifestEntry>,
    pub last_updated: String,
}

/// What the local copy of the skins repository is at.
#[derive(Debug, PartialEq)]
pub struct LocalManifest {
    pub version: u32,
    pub last_commit: Option<String>,
    pub last_updated: Option<String>,
    pub champions: HashMap<u32, ChampionManifestEntry>,
}

impl Default for LocalManifest {
    /// The manifest used where none is saved.
    fn default() -> (r: Self)
        ensures
            r.version == 0,
            r.last_commit is None,
            r.last_updated is None,
            r.champions@ == Map::<u32, ChampionManifestEntry>::empty(),
    {
        LocalManifest { version: 0, last_commit: None, last_updated: None, champions: HashMap::new() }
    }
}

/// Records the commit the local data now follows, and when.
pub fn record_data_commit(manifest: &mut LocalManifest, sha: String, updated_at: String)
    ensures
        final(manifest).last_commit == Some(sha),
        final(manifest).last_updated == Some(updated_at),
        final(manifest).version == old(manifest).version,
        final(manifest).champions == old(manifest).champions,
{
    manifest.last_commit = Some(sha);
    manifest.last_updated = Some(updated_at);
}

/// The file a downloaded skin is saved as: `"{name}.skin_file"`, or
/// `"{name}_chroma_{chroma or 0}.skin_file"` for a chroma.
pub open spec fn skin_file_name_of(skin_name: Seq<char>, is_chroma: bool, chroma_id: Option<u32>) -> Seq<char> {
    if is_chroma {
        skin_name + "_chroma_"@ + dec(match chroma_id { Some(c) => c as nat, None => 0 }) + ".skin_file"@
    } else {
        skin_name + ".skin_file"@
    }
}

/// Names the file a downloaded skin is saved as.
pub fn skin_file_name(skin_name: &str, is_chroma: bool, chroma_id: Option<u32>) -> (r: String)
    ensures
        r@ == skin_file_name_of(skin_name@, is_chroma, chroma_id),
{
    let mut out = String::from_str(skin_name);
    if is_chroma {
        push_str(&mut out, "_chroma_");
        let c: u32 = match chroma_id {
            Some(c) => c,
            None => 0,
        };
        write_dec(&mut out, c as u64);
    }
    push_str(&mut out, ".skin_file");
    out
}

/// How many times a download is retried after its first attempt.
pub const MAX_RETRIES: u32 = 3;

/// How many downloads of a batch run at the same time.
pub const MAX_CONCURRENT_DOWNLOADS: usize = 16;

/// The pause before attempt `attempt` (0 for the first): one second, doubling each retry.
pub open spec fn retry_delay_of(attempt: nat) -> nat
    decreases attempt,
{
    if attempt == 0 {
        0
    } else if attempt == 1 {
        1000
    } else {
        2 * retry_delay_of((attempt - 1) as nat)
    }
}

/// The pause before a download attempt, in milliseconds.
pub fn retry_delay_ms(attempt: u32) -> (ms: u64)
    requires
        attempt <= MAX_RETRIES,
    ensures
        ms == retry_delay_of(attempt as nat),
{
    proof {
        reveal_with_fuel(retry_delay_of, 4);
    }
    if attempt == 0 {
        0
    } else if attempt == 1 {
        1000
    } else if attempt == 2 {
        2000
    } else {
        4000
    }
}

/// The error of a download that failed every attempt.
pub open spec fn download_failure_of(attempts: nat, last_error: Option<Seq<char>>) -> Seq<char> {
    "Download failed after "@ + dec(attempts) + " attempts: "@ + match last_error {
        Some(e) => e,
        None => "Unknown error"@,
    }
}

/// Describes a download that failed every attempt.
pub fn download_failure_message(attempts: u32, last_error: Option<String>) -> (r: String)
    ensures
        r@ == download_failure_of(attempts as nat, match last_error { Some(e) => Some(e@), None => None }),
{
    let mut out = String::from_str("Download failed after ");
    write_dec(&mut out, attempts as u64);
    push_str(&mut out, " attempts: ");
    match last_error {
        Some(e) => push_str(&mut out, e.as_str()),
        None => push_str(&mut out, "Unknown error"),
    }
    out
}

/// What a finished single download reports: completed, canceled (`"canceled"`) or failed.
pub open spec fn download_outcome_of(result: Result<(), Seq<char>>) -> (Seq<char>, Result<(), Seq<char>>) {
    match result {
        Ok(_) => ("completed"@, Ok(())),
        Err(e) => if e == "canceled"@ { ("canceled"@, Err("Download canceled"@)) } else { ("failed"@, Err(e)) },
    }
}

/// Turns the result of a single download into the reported status and the command's result.
pub fn download_outcome(result: Result<(), String>) -> (r: (&'static str, Result<(), String>))
    ensures
        ({
            let expected = download_outcome_of(match result { Ok(_) => Ok(()), Err(e) => Err(e@) });
            &&& r.0@ == expected.0
            &&& match r.1 {
                Ok(_) => expected.1 is Ok,
                Err(e) => expected.1 == Err::<(), Seq<char>>(e@),
            }
        }),
{
    match result {
        Ok(()) => ("completed", Ok(())),
        Err(e) => {
            if str_eq(e.as_str(), "canceled") {
                ("canceled", Err(String::from_str("Download canceled")))
            } else {
                ("failed", Err(e))
            }
        },
    }
}

/// Whether a champion data file describes this champion: its `id` (low 32 bits) is the champion and it has a `name`.
pub open spec fn champion_data_matches(data: crate::json::Json, champion_id: u32) -> bool {
    crate::json::get_u64(data, "id"@) is Some && crate::json::get_u64(data, "id"@)->0 as u32 == champion_id
        && crate::json::get_str(data, "name"@) is Some
}

/// Decides whether a champion data file describes this champion.
pub fn champion_data_describes(data: &crate::json::Json, champion_id: u32) -> (r: bool)
    ensures
        r == champion_data_matches(*data, champion_id),
{
    match data.get_u64("id") {
        Some(id) => id as u32 == champion_id && data.get_str("name").is_some(),
        None => false,
    }
}

/// The name used for a champion not found locally: `"champion_{id}"`.
pub fn fallback_champion_name(champion_id: u32) -> (r: String)
    ensures
        r@ == "champion_"@ + dec(champion_id as nat),
{
    let mut out = String::from_str("champion_");
    write_dec(&mut out, champion_id as u64);
    out
}

/// A champion name as folder names are compared: lower case, without spaces and apostrophes.
pub open spec fn normalized_champion_name(name: Seq<char>) -> Seq<char> {
    without_chars(crate::settings::lowercase(name))
}

/// The characters other than spaces and apostrophes, in order.
pub open spec fn without_chars(s: Seq<char>) -> Seq<char>
    decreases s.len(),
{
    if s.len() == 0 {
        seq![]
    } else if s.last() == ' ' || s.last() == '\'' {
        without_chars(s.drop_last())
    } else {
        without_chars(s.drop_last()).push(s.last())
    }
}

/// Normalizes a champion name for comparison with folder names.
pub fn normalize_champion_name(name: &str) -> (r: String)
    ensures
        r@ == normalized_champion_name(name@),
{
    let lower = crate::settings::to_lowercase(name);
    let s = lower.as_str();
    let n = s.unicode_len();
    let mut out = String::new();
    let mut i: usize = 0;
    while i < n
        invariant
            0 <= i <= n,
            n == s@.len(),
            out@ == without_chars(s@.take(i as int)),
        decreases n - i,
    {
        let c = s.get_char(i);
        proof {
            assert(s@.take(i as int + 1).drop_last() =~= s@.take(i as int));
            assert(s@.take(i as int + 1).last() == c);
        }
        if c != ' ' && c != '\'' {
            crate::text::push_char(&mut out, c);
        }
        i = i + 1;
    }
    proof {
        assert(s@.take(i as int) =~= s@);
    }
    out
}

/// All champions' data as one JSON array text: the files' texts between brackets, comma-separated.
pub fn champions_json_array(files: &Vec<String>) -> (r: String)
    ensures
        r@ == "["@ + crate::text::join_seq(crate::text::views(files@), ","@) + "]"@,
{
    let mut out = String::from_str("[");
    let joined = crate::text::join(files, ",");
    push_str(&mut out, joined.as_str());
    push_str(&mut out, "]");
    out
}

/// The error for a champion without local data.
pub fn champion_not_found_message(champion_id: u32) -> (r: String)
    ensures
        r@ == "Champion data not found for ID: "@ + dec(champion_id as nat),
{
    let mut out = String::from_str("Champion data not found for ID: ");
    write_dec(&mut out, champion_id as u64);
    out
}

} // verus!
