//! Game-mode detection and the champions a lobby or session has confirmed,
//! for the queues where champions are chosen before matchmaking.
use vstd::prelude::*;
use crate::text::str_eq;
use crate::json::{Json, jget, get_i64, get_str, get_array, get_i64_or_zero, str_member_is, get_bool_or_false};
use crate::champ_select::{add_new_positives, member_ids, push_new_positive_exec, add_member_ids, lemma_add_new_positives_step};

verus! {

/// The characters of a string in upper case, as `str::to_uppercase` gives them.
pub uninterp spec fn uppercase(s: Seq<char>) -> Seq<char>;

/// `str::to_uppercase`; the result is named `uppercase`.
#[verifier::external_body]
fn to_uppercase(s: &str) -> (r: String)
    ensures
        r@ == uppercase(s@),
{
    s.to_uppercase()
}

/// Whether `needle` occurs in `hay`.
pub open spec fn contains_seq(hay: Seq<char>, needle: Seq<char>) -> bool {
    exists|i: int| 0 <= i && i + needle.len() <= hay.len() && #[trigger] hay.subrange(i, i + needle.len()) == needle
}

/// Whether `needle` occurs in `hay`.
pub fn contains_str(hay: &str, needle: &str) -> (r: bool)
    ensures
        r == contains_seq(hay@, needle@),
{
    let n = hay.unicode_len();
    let m = needle.unicode_len();
    if m > n {
        proof {
            assert forall|i: int| 0 <= i && i + needle@.len() <= hay@.len() implies #[trigger] hay@.subrange(i, i + needle@.len()) != needle@ by {}
        }
        return false;
    }
    let last = n - m;
    let mut i: usize = 0;
    while i < last
        invariant
            n == hay@.len(),
            m == needle@.len(),
            m <= n,
            last == n - m,
            0 <= i <= last,
            forall|k: int| 0 <= k < i ==> #[trigger] hay@.subrange(k, k + m) != needle@,
        decreases last - i,
    {
        if str_eq(hay.substring_char(i, i + m), needle) {
            assert(hay@.subrange(i as int, i + needle@.len()) == needle@);
            return true;
        }
        i = i + 1;
    }
    if str_eq(hay.substring_char(last, n), needle) {
        assert(hay@.subrange(last as int, last + needle@.len()) == needle@);
        return true;
    }
    proof {
        assert forall|k: int| 0 <= k && k + needle@.len() <= hay@.len() implies #[trigger] hay@.subrange(k, k + needle@.len()) != needle@ by {
            if k < i {
            } else {
                assert(k == last);
            }
        }
    }
    false
}

/// The queue id at `gameData.queue.id`.
pub open spec fn game_data_queue_id(j: Json) -> Option<i64> {
    match jget(j, "gameData"@) {
        Some(gd) => match jget(gd, "queue"@) {
            Some(q) => get_i64(q, "id"@),
            None => None,
        },
        None => None,
    }
}

/// The queue id at `queue.id`.
pub open spec fn top_queue_id(j: Json) -> Option<i64> {
    match jget(j, "queue"@) {
        Some(q) => get_i64(q, "id"@),
        None => None,
    }
}

/// The queue id at `gameConfig.queueId`.
pub open spec fn config_queue_id(j: Json) -> Option<i64> {
    match jget(j, "gameConfig"@) {
        Some(c) => get_i64(c, "queueId"@),
        None => None,
    }
}

fn game_data_queue_id_exec(j: &Json) -> (r: Option<i64>)
    ensures
        r == game_data_queue_id(*j),
{
    match j.get("gameData") {
        Some(gd) => match gd.get("queue") {
            Some(q) => q.get_i64("id"),
            None => None,
        },
        None => None,
    }
}

fn config_queue_id_exec(j: &Json) -> (r: Option<i64>)
    ensures
        r == config_queue_id(*j),
{
    match j.get("gameConfig") {
        Some(c) => c.get_i64("queueId"),
        None => None,
    }
}

/// The game mode of a session or lobby: known queues first (Swift Play,
/// Brawl, ARAM), then `gameData.queue.gameMode`, `map.gameMode`, the phase, or `UNKNOWN`.
pub open spec fn game_mode_of(j: Json) -> Seq<char> {
    let q = match game_data_queue_id(j) {
        Some(x) => x,
        None => match top_queue_id(j) {
            Some(x) => x,
            None => match config_queue_id(j) {
                Some(x) => x,
                None => 0,
            },
        },
    };
    if q == 480 || q == 1700 {
        "SWIFT_PLAY"@
    } else if q == 1300 || q == 2300 {
        "BRAWL"@
    } else if q == 450 {
        "ARAM"@
    } else {
        let from_queue = match jget(j, "gameData"@) {
            Some(gd) => match jget(gd, "queue"@) {
                Some(qq) => get_str(qq, "gameMode"@),
                None => None,
            },
            None => None,
        };
        match from_queue {
            Some(m) => m,
            None => {
                let from_map = match jget(j, "map"@) {
                    Some(mp) => get_str(mp, "gameMode"@),
                    None => None,
                };
                match from_map {
                    Some(m) => m,
                    None => match get_str(j, "phase"@) {
                        Some(p) => p,
                        None => "UNKNOWN"@,
                    },
                }
            },
        }
    }
}

/// Detects the game mode of a session or lobby.
pub fn detect_game_mode(json: &Json) -> (mode: String)
    ensures
        mode@ == game_mode_of(*json),
{
    let q: i64 = match game_data_queue_id_exec(json) {
        Some(x) => x,
        None => match json.get("queue") {
            Some(qv) => match qv.get_i64("id") {
                Some(x) => x,
                None => match config_queue_id_exec(json) {
                    Some(x) => x,
                    None => 0,
                },
            },
            None => match config_queue_id_exec(json) {
                Some(x) => x,
                None => 0,
            },
        },
    };
    if q == 480 || q == 1700 {
        return String::from_str("SWIFT_PLAY");
    } else if q == 1300 || q == 2300 {
        return String::from_str("BRAWL");
    } else if q == 450 {
        return String::from_str("ARAM");
    }
    if let Some(gd) = json.get("gameData") {
        if let Some(qq) = gd.get("queue") {
            if let Some(m) = qq.get_str("gameMode") {
                return String::from_str(m);
            }
        }
    }
    if let Some(mp) = json.get("map") {
        if let Some(m) = mp.get_str("gameMode") {
            return String::from_str(m);
        }
    }
    if let Some(p) = json.get_str("phase") {
        return String::from_str(p);
    }
    String::from_str("UNKNOWN")
}

// ---------------------------------------------------------------------------
// The champions a lobby has confirmed
// ---------------------------------------------------------------------------

/// The queue id as the champion extraction reads it: `gameData.queue.id`, else
/// `gameConfig.queueId`, else 0.
pub open spec fn lobby_queue_id(j: Json) -> i64 {
    match game_data_queue_id(j) {
        Some(q) => q,
        None => match config_queue_id(j) {
            Some(q) => q,
            None => 0,
        },
    }
}

/// Brawl: its queues, or an (upper-cased) mode naming it.
pub open spec fn is_brawl(j: Json, upper_mode: Seq<char>) -> bool {
    let q = lobby_queue_id(j);
    q == 1300 || q == 2300 || contains_seq(upper_mode, "BRAWL"@)
}

/// Swift Play: its queues, or an (upper-cased) mode naming it or Arena.
pub open spec fn is_swift(j: Json, upper_mode: Seq<char>) -> bool {
    let q = lobby_queue_id(j);
    q == 1700 || q == 480 || contains_seq(upper_mode, "SWIFT"@) || contains_seq(upper_mode, "ARENA"@)
}

/// ARAM: its queue, an (upper-cased) mode naming it, or a bench.
pub open spec fn is_aram(j: Json, upper_mode: Seq<char>) -> bool {
    lobby_queue_id(j) == 450 || contains_seq(upper_mode, "ARAM"@) || get_bool_or_false(j, "benchEnabled"@)
}

/// The lobby state, empty where missing.
pub open spec fn lobby_state(j: Json) -> Seq<char> {
    match get_str(j, "state"@) {
        Some(s) => s,
        None => seq![],
    }
}

/// States in which matchmaking runs.
pub open spec fn in_matchmaking(st: Seq<char>) -> bool {
    st == "MATCHMAKING"@ || st == "GAMESTARTING"@ || st == "PREPARING"@
}

/// States in which every placed champion counts as confirmed.
pub open spec fn matchmaking_auto_confirm(st: Seq<char>) -> bool {
    in_matchmaking(st) || st == "INPROGRESS"@
}

/// States in which a mode confirms its champions automatically.
pub open spec fn auto_confirm_state(st: Seq<char>) -> bool {
    st == "MATCHMAKING"@ || st == "GAMESTARTING"@ || st == "INPROGRESS"@
}

/// Whether the selection is confirmed: the local member is ready, matchmaking
/// runs, or the game is under way.
pub open spec fn is_confirmed_selection(j: Json) -> bool {
    let ready = match jget(j, "localMember"@) {
        Some(lm) => get_bool_or_false(lm, "ready"@),
        None => false,
    };
    let game_state = match jget(j, "gameData"@) {
        Some(gd) => get_str(gd, "gameState"@),
        None => None,
    };
    ready || in_matchmaking(lobby_state(j))
        || (game_state == Some("IN_PROGRESS"@) || game_state == Some("PRE_GAME"@))
}

/// How many slots count: the first only in single-champion modes.
pub open spec fn slots_to_check(n: nat, single: bool) -> nat {
    if single { if n < 1 { n } else { 1 } } else { n }
}

/// How a selection entry is recognised as the local player's.
#[derive(Debug, PartialEq)]
pub enum SelectionMatch {
    BySummoner(i64),
    ByPuuid(String),
    ByCell(i64),
    ByPuuidOrSummoner(String, i64),
}

/// Whether a selection entry is the local player's.
pub open spec fn selection_matches(sel: Json, m: SelectionMatch) -> bool {
    match m {
        SelectionMatch::BySummoner(id) => get_i64(sel, "summonerId"@) == Some(id),
        SelectionMatch::ByPuuid(p) => get_str(sel, "puuid"@) == Some(p@),
        SelectionMatch::ByCell(c) => get_i64(sel, "cellId"@) == Some(c),
        SelectionMatch::ByPuuidOrSummoner(p, id) => get_str(sel, "puuid"@) == Some(p@) || get_i64(sel, "summonerId"@) == Some(id),
    }
}

/// The positive champion of the first matching selection entry.
pub open spec fn first_matching_champion(sels: Seq<Json>, m: SelectionMatch) -> Option<i64>
    decreases sels.len(),
{
    if sels.len() == 0 {
        None
    } else if selection_matches(sels[0], m) && get_i64_or_zero(sels[0], "championId"@) > 0 {
        Some(get_i64_or_zero(sels[0], "championId"@))
    } else {
        first_matching_champion(sels.drop_first(), m)
    }
}

fn selection_matches_exec(sel: &Json, m: &SelectionMatch) -> (r: bool)
    ensures
        r == selection_matches(*sel, *m),
{
    match m {
        SelectionMatch::BySummoner(id) => sel.get_i64("summonerId") == Some(*id),
        SelectionMatch::ByPuuid(p) => sel.str_member_is("puuid", p.as_str()),
        SelectionMatch::ByCell(c) => sel.get_i64("cellId") == Some(*c),
        SelectionMatch::ByPuuidOrSummoner(p, id) => sel.str_member_is("puuid", p.as_str()) || sel.get_i64("summonerId") == Some(*id),
    }
}

fn first_matching_champion_exec(sels: &Vec<Json>, m: &SelectionMatch) -> (r: Option<i64>)
    ensures
        r == first_matching_champion(sels@, *m),
{
    let mut i: usize = 0;
    proof {
        assert(sels@.skip(0) =~= sels@);
    }
    while i < sels.len()
        invariant
            0 <= i <= sels.len(),
            first_matching_champion(sels@, *m) == first_matching_champion(sels@.skip(i as int), *m),
        decreases sels.len() - i,
    {
        proof {
            assert(sels@.skip(i as int).drop_first() =~= sels@.skip(i as int + 1));
            assert(sels@.skip(i as int)[0] == sels@[i as int]);
        }
        let c = sels[i].get_i64_or_zero("championId");
        if selection_matches_exec(&sels[i], m) && c > 0 {
            return Some(c);
        }
        i = i + 1;
    }
    None
}

/// The local player's puuid: `localPlayerPuuid`, else `localPlayer.puuid`.
pub open spec fn local_puuid(j: Json) -> Option<Seq<char>> {
    match get_str(j, "localPlayerPuuid"@) {
        Some(p) => Some(p),
        None => match jget(j, "localPlayer"@) {
            Some(lp) => get_str(lp, "puuid"@),
            None => None,
        },
    }
}

/// The local player's champion in a single-champion mode, identified in turn by
/// summoner id, puuid, cell, the current summoner (`current`: puuid and summoner
/// id), and as a last resort the first entry.
pub open spec fn single_mode_champion(j: Json, sels: Seq<Json>, current: Option<(Seq<char>, i64)>) -> Seq<i64> {
    let m1 = match jget(j, "localPlayerSelection"@) {
        Some(lp) => match get_i64(lp, "summonerId"@) {
            Some(lid) => first_matching_champion(sels, SelectionMatch::BySummoner(lid)),
            None => None,
        },
        None => None,
    };
    let m2 = match local_puuid(j) {
        Some(p) => first_matching_champion_puuid(sels, p),
        None => None,
    };
    let m3 = match get_i64(j, "localPlayerCellId"@) {
        Some(c) => first_matching_champion(sels, SelectionMatch::ByCell(c)),
        None => None,
    };
    let m4 = match current {
        Some((p, sid)) => first_matching_champion_either(sels, p, sid),
        None => None,
    };
    let m5 = if sels.len() > 0 && get_i64_or_zero(sels[0], "championId"@) > 0 {
        Some(get_i64_or_zero(sels[0], "championId"@))
    } else {
        None
    };
    match m1 {
        Some(c) => seq![c],
        None => match m2 {
            Some(c) => seq![c],
            None => match m3 {
                Some(c) => seq![c],
                None => match m4 {
                    Some(c) => seq![c],
                    None => match m5 {
                        Some(c) => seq![c],
                        None => seq![],
                    },
                },
            },
        },
    }
}

/// The positive champion of the first entry with this puuid.
pub open spec fn first_matching_champion_puuid(sels: Seq<Json>, p: Seq<char>) -> Option<i64>
    decreases sels.len(),
{
    if sels.len() == 0 {
        None
    } else if get_str(sels[0], "puuid"@) == Some(p) && get_i64_or_zero(sels[0], "championId"@) > 0 {
        Some(get_i64_or_zero(sels[0], "championId"@))
    } else {
        first_matching_champion_puuid(sels.drop_first(), p)
    }
}

/// The positive champion of the first entry with this puuid or summoner id.
pub open spec fn first_matching_champion_either(sels: Seq<Json>, p: Seq<char>, sid: i64) -> Option<i64>
    decreases sels.len(),
{
    if sels.len() == 0 {
        None
    } else if (get_str(sels[0], "puuid"@) == Some(p) || get_i64(sels[0], "summonerId"@) == Some(sid))
        && get_i64_or_zero(sels[0], "championId"@) > 0 {
        Some(get_i64_or_zero(sels[0], "championId"@))
    } else {
        first_matching_champion_either(sels.drop_first(), p, sid)
    }
}

proof fn lemma_first_matching_puuid(sels: Seq<Json>, p: String)
    ensures
        first_matching_champion(sels, SelectionMatch::ByPuuid(p)) == first_matching_champion_puuid(sels, p@),
    decreases sels.len(),
{
    if sels.len() > 0 {
        lemma_first_matching_puuid(sels.drop_first(), p);
    }
}

proof fn lemma_first_matching_either(sels: Seq<Json>, p: String, sid: i64)
    ensures
        first_matching_champion(sels, SelectionMatch::ByPuuidOrSummoner(p, sid)) == first_matching_champion_either(sels, p@, sid),
    decreases sels.len(),
{
    if sels.len() > 0 {
        lemma_first_matching_either(sels.drop_first(), p, sid);
    }
}

fn single_mode_champion_exec(j: &Json, sels: &Vec<Json>, current: &Option<(String, i64)>) -> (r: Vec<i64>)
    ensures
        r@ == single_mode_champion(*j, sels@, match current { Some((p, s)) => Some((p@, *s)), None => None }),
{
    let mut out: Vec<i64> = Vec::new();
    let m1 = match j.get("localPlayerSelection") {
        Some(lp) => match lp.get_i64("summonerId") {
            Some(lid) => first_matching_champion_exec(sels, &SelectionMatch::BySummoner(lid)),
            None => None,
        },
        None => None,
    };
    if let Some(c) = m1 {
        out.push(c);
        assert(out@ =~= seq![c]);
        return out;
    }
    let puuid: Option<String> = match j.get_str("localPlayerPuuid") {
        Some(p) => Some(String::from_str(p)),
        None => match j.get("localPlayer") {
            Some(lp) => match lp.get_str("puuid") {
                Some(p) => Some(String::from_str(p)),
                None => None,
            },
            None => None,
        },
    };
    let m2 = match puuid {
        Some(p) => {
            proof {
                lemma_first_matching_puuid(sels@, p);
            }
            first_matching_champion_exec(sels, &SelectionMatch::ByPuuid(p))
        },
        None => None,
    };
    if let Some(c) = m2 {
        out.push(c);
        assert(out@ =~= seq![c]);
        return out;
    }
    let m3 = match j.get_i64("localPlayerCellId") {
        Some(c) => first_matching_champion_exec(sels, &SelectionMatch::ByCell(c)),
        None => None,
    };
    if let Some(c) = m3 {
        out.push(c);
        assert(out@ =~= seq![c]);
        return out;
    }
    let m4 = match current {
        Some((p, sid)) => {
            let pc = p.clone();
            proof {
                lemma_first_matching_either(sels@, pc, *sid);
            }
            first_matching_champion_exec(sels, &SelectionMatch::ByPuuidOrSummoner(pc, *sid))
        },
        None => None,
    };
    if let Some(c) = m4 {
        out.push(c);
        assert(out@ =~= seq![c]);
        return out;
    }
    if sels.len() > 0 {
        let c = sels[0].get_i64_or_zero("championId");
        if c > 0 {
            out.push(c);
            assert(out@ =~= seq![c]);
            return out;
        }
    }
    assert(out@ =~= Seq::<i64>::empty());
    out
}

/// The mode flags the extraction works with.
#[derive(Debug, PartialEq)]
pub struct LobbyFlags {
    pub brawl: bool,
    pub swift: bool,
    pub aram: bool,
    pub in_matchmaking: bool,
    pub matchmaking_auto: bool,
    pub confirmed: bool,
    pub auto_swift: bool,
    pub auto_aram: bool,
}

/// The flags of a lobby with this (upper-cased) mode.
pub open spec fn lobby_flags(j: Json, mode: Seq<char>) -> LobbyFlags {
    let st = lobby_state(j);
    LobbyFlags {
        brawl: is_brawl(j, mode),
        swift: is_swift(j, mode),
        aram: is_aram(j, mode),
        in_matchmaking: in_matchmaking(st),
        matchmaking_auto: matchmaking_auto_confirm(st),
        confirmed: is_confirmed_selection(j),
        auto_swift: is_swift(j, mode) && auto_confirm_state(st),
        auto_aram: is_aram(j, mode) && auto_confirm_state(st),
    }
}

fn state_is(st: &str, a: &str) -> (r: bool)
    ensures
        r == (st@ == a@),
{
    str_eq(st, a)
}

fn lobby_flags_exec(j: &Json, mode: &str) -> (f: LobbyFlags)
    ensures
        f == lobby_flags(*j, mode@),
{
    let q: i64 = match game_data_queue_id_exec(j) {
        Some(x) => x,
        None => match config_queue_id_exec(j) {
            Some(x) => x,
            None => 0,
        },
    };
    let brawl = q == 1300 || q == 2300 || contains_str(mode, "BRAWL");
    let swift = q == 1700 || q == 480 || contains_str(mode, "SWIFT") || contains_str(mode, "ARENA");
    let aram = q == 450 || contains_str(mode, "ARAM") || j.get_bool_or_false("benchEnabled");
    proof {
        reveal_strlit("");
    }
    let st: &str = match j.get_str("state") {
        Some(s) => s,
        None => "",
    };
    let in_mm = state_is(st, "MATCHMAKING") || state_is(st, "GAMESTARTING") || state_is(st, "PREPARING");
    let mm_auto = in_mm || state_is(st, "INPROGRESS");
    let auto_state = state_is(st, "MATCHMAKING") || state_is(st, "GAMESTARTING") || state_is(st, "INPROGRESS");
    let ready = match j.get("localMember") {
        Some(lm) => lm.get_bool_or_false("ready"),
        None => false,
    };
    let game_state_done = match j.get("gameData") {
        Some(gd) => gd.str_member_is("gameState", "IN_PROGRESS") || gd.str_member_is("gameState", "PRE_GAME"),
        None => false,
    };
    let confirmed = ready || in_mm || game_state_done;
    assert(st@ == lobby_state(*j));
    assert(brawl == is_brawl(*j, mode@));
    assert(swift == is_swift(*j, mode@));
    assert(aram == is_aram(*j, mode@));
    assert(confirmed == is_confirmed_selection(*j));
    LobbyFlags {
        brawl,
        swift,
        aram,
        in_matchmaking: in_mm,
        matchmaking_auto: mm_auto,
        confirmed,
        auto_swift: swift && auto_state,
        auto_aram: aram && auto_state,
    }
}

/// Whether the mode lets the player bring more than one champion: Swift Play
/// and Arena, recognised by queue or by name.
pub fn is_multi_champion_mode(json: &Json, mode: &str) -> (r: bool)
    ensures
        r == is_swift(*json, uppercase(mode@)),
{
    let upper = to_uppercase(mode);
    lobby_flags_exec(json, upper.as_str()).swift
}

/// First step: while matchmaking runs, every champion placed counts; the local
/// member's slots (the first only in single-champion modes), else its champion,
/// else the session's selections. `Some` when this step settles the answer.
pub open spec fn matchmaking_override(j: Json, f: LobbyFlags, current: Option<(Seq<char>, i64)>) -> Option<Seq<i64>> {
    if !f.matchmaking_auto {
        None
    } else {
        let single = f.brawl || f.aram;
        let from_member: Option<Seq<i64>> = match jget(j, "localMember"@) {
            Some(lm) => {
                let slot_ids = match get_array(lm, "playerSlots"@) {
                    Some(slots) => add_new_positives(seq![], member_ids(slots.take(slots_to_check(slots.len(), single) as int), "championId"@)),
                    None => seq![],
                };
                if slot_ids.len() > 0 {
                    Some(slot_ids)
                } else if get_i64_or_zero(lm, "championId"@) > 0 {
                    Some(seq![get_i64_or_zero(lm, "championId"@)])
                } else {
                    None
                }
            },
            None => None,
        };
        match from_member {
            Some(r) => Some(r),
            None => {
                let sels = match jget(j, "gameData"@) {
                    Some(gd) => get_array(gd, "playerChampionSelections"@),
                    None => None,
                };
                match sels {
                    Some(s) => {
                        let r = if single { single_mode_champion(j, s, current) } else { add_new_positives(seq![], member_ids(s, "championId"@)) };
                        if r.len() > 0 { Some(r) } else { None }
                    },
                    None => None,
                }
            },
        }
    }
}

/// The champion of a slot when the slot counts as locked.
pub open spec fn locked_slot_champion(slot: Json, f: LobbyFlags) -> Option<i64> {
    let champ = get_i64_or_zero(slot, "championId"@);
    let status = match get_str(slot, "selectionStatus"@) { Some(s) => s, None => "UNKNOWN"@ };
    let locked = status == "SELECTED"@ || status == "LOCKED"@ || f.confirmed || f.auto_swift || f.auto_aram
        || f.matchmaking_auto || (f.swift && champ > 0) || (f.aram && champ > 0) || (f.in_matchmaking && champ > 0);
    if champ > 0 && locked { Some(champ) } else { None }
}

/// Each slot's locked champion.
pub open spec fn locked_slot_champions(slots: Seq<Json>, f: LobbyFlags) -> Seq<Option<i64>> {
    slots.map_values(|s: Json| locked_slot_champion(s, f))
}

/// Second step: the local member's locked slots (the first only in
/// single-champion modes), else its champion when the selection is confirmed.
pub open spec fn locked_member_champions(j: Json, f: LobbyFlags) -> Seq<i64> {
    match jget(j, "localMember"@) {
        Some(lm) => {
            let ids = match get_array(lm, "playerSlots"@) {
                Some(slots) => add_new_positives(seq![], locked_slot_champions(slots.take(slots_to_check(slots.len(), f.brawl || f.aram) as int), f)),
                None => seq![],
            };
            if ids.len() == 0 && f.confirmed && get_i64_or_zero(lm, "championId"@) > 0 {
                seq![get_i64_or_zero(lm, "championId"@)]
            } else {
                ids
            }
        },
        None => seq![],
    }
}

/// The first bench champion marked selected.
pub open spec fn first_selected_bench(bench: Seq<Json>) -> Option<i64>
    decreases bench.len(),
{
    if bench.len() == 0 {
        None
    } else if get_bool_or_false(bench[0], "selected"@) && get_i64_or_zero(bench[0], "championId"@) > 0 {
        Some(get_i64_or_zero(bench[0], "championId"@))
    } else {
        first_selected_bench(bench.drop_first())
    }
}

/// The first bench champion.
pub open spec fn first_bench(bench: Seq<Json>) -> Option<i64>
    decreases bench.len(),
{
    if bench.len() == 0 {
        None
    } else if get_i64_or_zero(bench[0], "championId"@) > 0 {
        Some(get_i64_or_zero(bench[0], "championId"@))
    } else {
        first_bench(bench.drop_first())
    }
}

/// Third step, for ARAM without a champion yet: the local player's team entry
/// settles it, then a selected bench champion settles it, else the first bench
/// champion is taken (`Err` settles the answer, `Ok` continues).
pub open spec fn aram_fallback(j: Json) -> Result<Seq<i64>, Seq<i64>> {
    let team_pick = match get_array(j, "myTeam"@) {
        Some(team) => match get_i64(j, "localPlayerCellId"@) {
            Some(cell) => crate::champ_select::first_team_champion(team, cell),
            None => None,
        },
        None => None,
    };
    match team_pick {
        Some(c) => Err(seq![c]),
        None => match get_array(j, "benchChampions"@) {
            Some(bench) => match first_selected_bench(bench) {
                Some(c) => Err(seq![c]),
                None => match first_bench(bench) {
                    Some(c) => Ok(seq![c]),
                    None => Ok(seq![]),
                },
            },
            None => Ok(seq![]),
        },
    }
}

/// A further slot's champion in a multi-champion mode, when locked or confirmed.
pub open spec fn extra_slot_champion(slot: Json, f: LobbyFlags, multi: bool) -> Option<i64> {
    let locked = match get_str(slot, "selectionStatus"@) {
        Some(s) => s == "SELECTED"@ || s == "LOCKED"@,
        None => f.confirmed,
    } || (f.swift && multi);
    match get_i64(slot, "championId"@) {
        Some(c) => if locked || f.confirmed { Some(c) } else { None },
        None => None,
    }
}

/// Last step, in multi-champion modes: the further slots' champions.
pub open spec fn with_extra_slots(j: Json, f: LobbyFlags, ids: Seq<i64>) -> Seq<i64> {
    match jget(j, "localMember"@) {
        Some(lm) => match get_array(lm, "playerSlots"@) {
            Some(slots) => if slots.len() == 0 {
                ids
            } else {
                add_new_positives(ids, slots.skip(1).map_values(|s: Json| extra_slot_champion(s, f, true)))
            },
            None => ids,
        },
        None => ids,
    }
}

/// The champions a lobby or session has confirmed for the local player, in a
/// given (upper-cased) mode, with the current summoner's puuid and id when known and whether
/// the mode lets the player bring several champions.
pub open spec fn lobby_champions(j: Json, mode: Seq<char>, current: Option<(Seq<char>, i64)>, multi: bool) -> Seq<i64> {
    let f = lobby_flags(j, mode);
    match matchmaking_override(j, f, current) {
        Some(r) => r,
        None => {
            let b = locked_member_champions(j, f);
            let c: Result<Seq<i64>, Seq<i64>> = if f.aram && b.len() == 0 { aram_fallback(j) } else { Ok(b) };
            match c {
                Err(r) => r,
                Ok(ids) => if multi { with_extra_slots(j, f, ids) } else { ids },
            }
        },
    }
}

fn add_first_slot_ids(acc: &mut Vec<i64>, slots: &Vec<Json>, k: usize)
    requires
        k <= slots.len(),
    ensures
        final(acc)@ == add_new_positives(old(acc)@, member_ids(slots@.take(k as int), "championId"@)),
{
    let ghost cands = member_ids(slots@.take(k as int), "championId"@);
    let mut i: usize = 0;
    proof {
        assert(cands.skip(0) =~= cands);
    }
    while i < k
        invariant
            0 <= i <= k,
            k <= slots.len(),
            cands == member_ids(slots@.take(k as int), "championId"@),
            add_new_positives(old(acc)@, cands) == add_new_positives(acc@, cands.skip(i as int)),
        decreases k - i,
    {
        proof {
            lemma_add_new_positives_step(acc@, cands, i as int);
        }
        push_new_positive_exec(acc, slots[i].get_i64("championId"));
        i = i + 1;
    }
    proof {
        assert(cands.skip(i as int).len() == 0);
    }
}

fn matchmaking_override_exec(j: &Json, f: &LobbyFlags, current: &Option<(String, i64)>) -> (r: Option<Vec<i64>>)
    ensures
        match r {
            Some(v) => matchmaking_override(*j, *f, match current { Some((p, s)) => Some((p@, *s)), None => None }) == Some(v@),
            None => matchmaking_override(*j, *f, match current { Some((p, s)) => Some((p@, *s)), None => None }) is None,
        },
{
    if !f.matchmaking_auto {
        return None;
    }
    let single = f.brawl || f.aram;
    if let Some(lm) = j.get("localMember") {
        let mut ids: Vec<i64> = Vec::new();
        if let Some(slots) = lm.get_array("playerSlots") {
            let k = if single { if slots.len() < 1 { slots.len() } else { 1 } } else { slots.len() };
            add_first_slot_ids(&mut ids, slots, k);
        }
        if ids.len() > 0 {
            return Some(ids);
        }
        let c = lm.get_i64_or_zero("championId");
        if c > 0 {
            let mut v: Vec<i64> = Vec::new();
            v.push(c);
            assert(v@ =~= seq![c]);
            return Some(v);
        }
    }
    let sels = match j.get("gameData") {
        Some(gd) => gd.get_array("playerChampionSelections"),
        None => None,
    };
    match sels {
        Some(s) => {
            let r = if single {
                single_mode_champion_exec(j, s, current)
            } else {
                let mut v: Vec<i64> = Vec::new();
                add_member_ids(&mut v, s, "championId");
                v
            };
            if r.len() > 0 { Some(r) } else { None }
        },
        None => None,
    }
}

fn locked_member_champions_exec(j: &Json, f: &LobbyFlags) -> (r: Vec<i64>)
    ensures
        r@ == locked_member_champions(*j, *f),
{
    let mut ids: Vec<i64> = Vec::new();
    let lm = match j.get("localMember") {
        Some(lm) => lm,
        None => return ids,
    };
    if let Some(slots) = lm.get_array("playerSlots") {
        let single = f.brawl || f.aram;
        let k = if single { if slots.len() < 1 { slots.len() } else { 1 } } else { slots.len() };
        let ghost cands = locked_slot_champions(slots@.take(k as int), *f);
        let mut i: usize = 0;
        proof {
            assert(cands.skip(0) =~= cands);
        }
        while i < k
            invariant
                0 <= i <= k,
                k <= slots.len(),
                cands == locked_slot_champions(slots@.take(k as int), *f),
                add_new_positives(seq![], cands) == add_new_positives(ids@, cands.skip(i as int)),
            decreases k - i,
        {
            proof {
                lemma_add_new_positives_step(ids@, cands, i as int);
            }
            let slot = &slots[i];
            let champ = slot.get_i64_or_zero("championId");
            let status: &str = match slot.get_str("selectionStatus") {
                Some(s) => s,
                None => "UNKNOWN",
            };
            let locked = str_eq(status, "SELECTED") || str_eq(status, "LOCKED") || f.confirmed || f.auto_swift
                || f.auto_aram || f.matchmaking_auto || (f.swift && champ > 0) || (f.aram && champ > 0)
                || (f.in_matchmaking && champ > 0);
            let cand: Option<i64> = if champ > 0 && locked { Some(champ) } else { None };
            assert(cand == locked_slot_champion(slots@[i as int], *f));
            push_new_positive_exec(&mut ids, cand);
            i = i + 1;
        }
        proof {
            assert(cands.skip(i as int).len() == 0);
        }
    }
    if ids.len() == 0 && f.confirmed {
        let c = lm.get_i64_or_zero("championId");
        if c > 0 {
            ids.push(c);
            assert(ids@ =~= seq![c]);
        }
    }
    ids
}

fn first_selected_bench_exec(bench: &Vec<Json>) -> (r: Option<i64>)
    ensures
        r == first_selected_bench(bench@),
{
    let mut i: usize = 0;
    proof {
        assert(bench@.skip(0) =~= bench@);
    }
    while i < bench.len()
        invariant
            0 <= i <= bench.len(),
            first_selected_bench(bench@) == first_selected_bench(bench@.skip(i as int)),
        decreases bench.len() - i,
    {
        proof {
            assert(bench@.skip(i as int).drop_first() =~= bench@.skip(i as int + 1));
            assert(bench@.skip(i as int)[0] == bench@[i as int]);
        }
        let c = bench[i].get_i64_or_zero("championId");
        if bench[i].get_bool_or_false("selected") && c > 0 {
            return Some(c);
        }
        i = i + 1;
    }
    None
}

fn first_bench_exec(bench: &Vec<Json>) -> (r: Option<i64>)
    ensures
        r == first_bench(bench@),
{
    let mut i: usize = 0;
    proof {
        assert(bench@.skip(0) =~= bench@);
    }
    while i < bench.len()
        invariant
            0 <= i <= bench.len(),
            first_bench(bench@) == first_bench(bench@.skip(i as int)),
        decreases bench.len() - i,
    {
        proof {
            assert(bench@.skip(i as int).drop_first() =~= bench@.skip(i as int + 1));
            assert(bench@.skip(i as int)[0] == bench@[i as int]);
        }
        let c = bench[i].get_i64_or_zero("championId");
        if c > 0 {
            return Some(c);
        }
        i = i + 1;
    }
    None
}

fn first_team_champion_exec(team: &Vec<Json>, local: i64) -> (r: Option<i64>)
    ensures
        r == crate::champ_select::first_team_champion(team@, local),
{
    let mut i: usize = 0;
    proof {
        assert(team@.skip(0) =~= team@);
    }
    while i < team.len()
        invariant
            0 <= i <= team.len(),
            crate::champ_select::first_team_champion(team@, local)
                == crate::champ_select::first_team_champion(team@.skip(i as int), local),
        decreases team.len() - i,
    {
        proof {
            assert(team@.skip(i as int).drop_first() =~= team@.skip(i as int + 1));
            assert(team@.skip(i as int)[0] == team@[i as int]);
        }
        let c = team[i].get_i64_or_zero("championId");
        if team[i].get_i64("cellId") == Some(local) && c > 0 {
            return Some(c);
        }
        i = i + 1;
    }
    None
}

fn aram_fallback_exec(j: &Json) -> (r: Result<Vec<i64>, Vec<i64>>)
    ensures
        match r {
            Ok(v) => aram_fallback(*j) == Ok::<Seq<i64>, Seq<i64>>(v@),
            Err(v) => aram_fallback(*j) == Err::<Seq<i64>, Seq<i64>>(v@),
        },
{
    let mut v: Vec<i64> = Vec::new();
    let team_pick = match j.get_array("myTeam") {
        Some(team) => match j.get_i64("localPlayerCellId") {
            Some(cell) => first_team_champion_exec(team, cell),
            None => None,
        },
        None => None,
    };
    if let Some(c) = team_pick {
        v.push(c);
        assert(v@ =~= seq![c]);
        return Err(v);
    }
    match j.get_array("benchChampions") {
        Some(bench) => {
            if let Some(c) = first_selected_bench_exec(bench) {
                v.push(c);
                assert(v@ =~= seq![c]);
                return Err(v);
            }
            if let Some(c) = first_bench_exec(bench) {
                v.push(c);
                assert(v@ =~= seq![c]);
                return Ok(v);
            }
            assert(v@ =~= Seq::<i64>::empty());
            Ok(v)
        },
        None => {
            assert(v@ =~= Seq::<i64>::empty());
            Ok(v)
        },
    }
}

fn add_extra_slots(ids: &mut Vec<i64>, j: &Json, f: &LobbyFlags)
    ensures
        final(ids)@ == with_extra_slots(*j, *f, old(ids)@),
{
    let lm = match j.get("localMember") {
        Some(lm) => lm,
        None => return,
    };
    let slots = match lm.get_array("playerSlots") {
        Some(s) => s,
        None => return,
    };
    if slots.len() == 0 {
        return;
    }
    let ghost cands = slots@.skip(1).map_values(|s: Json| extra_slot_champion(s, *f, true));
    let mut i: usize = 1;
    proof {
        assert(cands.skip(0) =~= cands);
    }
    while i < slots.len()
        invariant
            1 <= i <= slots.len(),
            cands == slots@.skip(1).map_values(|s: Json| extra_slot_champion(s, *f, true)),
            add_new_positives(old(ids)@, cands) == add_new_positives(ids@, cands.skip(i - 1)),
        decreases slots.len() - i,
    {
        proof {
            lemma_add_new_positives_step(ids@, cands, i - 1);
            assert(cands[i - 1] == extra_slot_champion(slots@[i as int], *f, true));
        }
        let slot = &slots[i];
        let locked = match slot.get_str("selectionStatus") {
            Some(s) => str_eq(s, "SELECTED") || str_eq(s, "LOCKED"),
            None => f.confirmed,
        } || f.swift;
        let cand: Option<i64> = match slot.get_i64("championId") {
            Some(c) => if locked || f.confirmed { Some(c) } else { None },
            None => None,
        };
        push_new_positive_exec(ids, cand);
        i = i + 1;
    }
    proof {
        assert(cands.skip(i - 1).len() == 0);
    }
}

/// Reads the champions a lobby or session has confirmed for the local player,
/// for the mode as named (it is upper-cased through `str::to_uppercase`).
pub fn extract_lobby_champions(
    json: &Json,
    mode: &str,
    current_summoner: &Option<(String, i64)>,
    is_multi_champion_mode: bool,
) -> (ids: Vec<i64>)
    ensures
        ids@ == lobby_champions(*json, uppercase(mode@), match current_summoner { Some((p, s)) => Some((p@, *s)), None => None }, is_multi_champion_mode),
{
    let upper = to_uppercase(mode);
    extract_lobby_champions_for_mode(json, upper.as_str(), current_summoner, is_multi_champion_mode)
}

/// Reads the champions a lobby or session has confirmed for the local player,
/// given the mode already in upper case.
pub fn extract_lobby_champions_for_mode(
    json: &Json,
    upper_mode: &str,
    current_summoner: &Option<(String, i64)>,
    is_multi_champion_mode: bool,
) -> (ids: Vec<i64>)
    ensures
        ids@ == lobby_champions(*json, upper_mode@, match current_summoner { Some((p, s)) => Some((p@, *s)), None => None }, is_multi_champion_mode),
{
    let mode = upper_mode;
    let f = lobby_flags_exec(json, mode);
    if let Some(r) = matchmaking_override_exec(json, &f, current_summoner) {
        return r;
    }
    let b = locked_member_champions_exec(json, &f);
    let mut ids = if f.aram && b.len() == 0 {
        match aram_fallback_exec(json) {
            Err(r) => return r,
            Ok(v) => v,
        }
    } else {
        b
    };
    if is_multi_champion_mode {
        add_extra_slots(&mut ids, json, &f);
    }
    ids
}

} // verus!
